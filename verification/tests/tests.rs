use libbfi::builtin_tokenizers::{Blub, Brainfuck, Ook};
use libbfi::custom::Custom;
use libbfi::matching::{find_matching, find_matching_substring, IteratorOrder};
use libbfi::runtime::{BrainfuckRuntime, RunOutcome, RuntimeError};
use libbfi::token::{BFToken, Tokenizer};

const DEFAULT_TEST_ERROR: &str = "Failed to read tokens";

fn run_program(program: &str, input: &[u8], max_steps: u64) -> (BrainfuckRuntime, Vec<u8>, RunOutcome) {
    let mut runtime = BrainfuckRuntime::new();
    runtime.add_tokens(Brainfuck::to_tokens(String::from(program)).expect(DEFAULT_TEST_ERROR));
    let mut input_buf: Vec<u8> = input.to_vec();
    let mut output: Vec<u8> = Vec::new();
    let outcome = runtime.run_full_stack(&mut input_buf, &mut output, max_steps);
    (runtime, output, outcome)
}

#[test]
fn test_adding_characters() {
    let mut runtime = BrainfuckRuntime::new();
    runtime
        .add_tokens(Brainfuck::to_tokens(String::from("+a-b>c<d[e]f")).expect(DEFAULT_TEST_ERROR));

    assert_eq!(
        runtime.instruction_stack,
        vec![
            BFToken::CellAdd,
            BFToken::CellSubtract,
            BFToken::PtrRight,
            BFToken::PtrLeft,
            BFToken::JumpForwards,
            BFToken::JumpBackwards
        ]
    )
}

#[test]
fn test_to_ook() {
    let mut memory = BrainfuckRuntime::new();
    memory.add_tokens(Brainfuck::to_tokens(String::from("+a-b>c<d[e]f")).expect(DEFAULT_TEST_ERROR));
    memory.add_tokens(Ook::to_tokens(String::from("Ook. Ook. Ook. Ook.")).expect(DEFAULT_TEST_ERROR));

    assert_eq!(
        memory.instruction_stack,
        vec![
            BFToken::CellAdd,
            BFToken::CellSubtract,
            BFToken::PtrRight,
            BFToken::PtrLeft,
            BFToken::JumpForwards,
            BFToken::JumpBackwards,
            BFToken::CellAdd,
            BFToken::CellAdd
        ]
    )
}

#[test]
fn hello_world_exact_output() {
    let (_, output, outcome) = run_program(
        "++++++++[>++++[>++>+++>+++>+<<<<-]>+>+>->>+[<]<-]>>.>---.+++++++..+++.>>.<-.<.+++.------.--------.>>+.>++.",
        &[],
        10_000_000,
    );
    assert_eq!(outcome, RunOutcome::Halted);
    assert_eq!(output, b"Hello World!\n".to_vec());
}

#[test]
fn rightward_march_grows_tape_until_step_budget() {
    let mut runtime = BrainfuckRuntime::with_memory_size(1);
    runtime.add_tokens(Brainfuck::to_tokens(String::from("+[>+]")).expect(DEFAULT_TEST_ERROR));
    let mut input: Vec<u8> = Vec::new();
    let mut output: Vec<u8> = Vec::new();
    let outcome = runtime.run_full_stack(&mut input, &mut output, 302);
    assert_eq!(outcome, RunOutcome::OutOfSteps);
    assert_eq!(runtime.memory.len(), 101);
    assert_eq!(runtime.pointer, 100);
}

#[test]
fn empty_loop_halts_immediately() {
    let (runtime, output, outcome) = run_program("[]", &[], 100);
    assert_eq!(outcome, RunOutcome::Halted);
    assert_eq!(runtime.instruction, 2);
    assert!(output.is_empty());
    assert!(runtime.memory.iter().all(|&c| c == 0));
}

#[test]
fn lone_closing_bracket_is_a_noop() {
    let (runtime, _, outcome) = run_program("]", &[], 100);
    assert_eq!(outcome, RunOutcome::Halted);
    assert_eq!(runtime.instruction, 1);
}

#[test]
fn unmatched_backward_jump_fails() {
    let (_, _, outcome) = run_program("+]", &[], 100);
    assert_eq!(outcome, RunOutcome::Failed(RuntimeError::UnbalancedBracket));
}

#[test]
fn unmatched_forward_jump_fails() {
    let (_, _, outcome) = run_program("[+", &[], 100);
    assert_eq!(outcome, RunOutcome::Failed(RuntimeError::UnbalancedBracket));
}

#[test]
fn cell_increment_wraps_around() {
    let mut runtime = BrainfuckRuntime::with_memory_size(1);
    runtime.memory[0] = 255;
    runtime.op_add_to_cell();
    assert_eq!(runtime.memory[0], 0);
}

#[test]
fn cell_decrement_wraps_around() {
    let mut runtime = BrainfuckRuntime::with_memory_size(1);
    runtime.op_sub_from_cell();
    assert_eq!(runtime.memory[0], 255);
}

#[test]
fn tape_grows_right_with_zeroed_cell() {
    let mut runtime = BrainfuckRuntime::with_memory_size(1);
    runtime.memory[0] = 7;
    runtime.op_ptr_right();
    assert_eq!(runtime.pointer, 1);
    assert_eq!(runtime.memory, vec![7, 0]);
}

#[test]
fn tape_grows_left_with_zeroed_cell() {
    let mut runtime = BrainfuckRuntime::with_memory_size(1);
    runtime.memory[0] = 7;
    runtime.op_ptr_left();
    assert_eq!(runtime.pointer, 0);
    assert_eq!(runtime.memory, vec![0, 7]);
}

#[test]
fn input_reads_one_byte_into_cell() {
    let (runtime, output, outcome) = run_program(",.", &[65, 66], 100);
    assert_eq!(outcome, RunOutcome::Halted);
    assert_eq!(runtime.memory[0], 65);
    assert_eq!(output, vec![65]);
}

#[test]
fn input_bytes_are_consumed_in_order() {
    let (_, output, outcome) = run_program(",.>,.", &[10, 20], 100);
    assert_eq!(outcome, RunOutcome::Halted);
    assert_eq!(output, vec![10, 20]);
}

#[test]
fn exhausted_input_fails() {
    let (_, _, outcome) = run_program(",", &[], 100);
    assert_eq!(outcome, RunOutcome::Failed(RuntimeError::InputExhausted));
}

#[test]
fn clean_env_resets_everything() {
    let mut runtime = BrainfuckRuntime::with_memory_size(4);
    runtime.add_tokens(Brainfuck::to_tokens(String::from("+>+")).expect(DEFAULT_TEST_ERROR));
    let mut input: Vec<u8> = Vec::new();
    let mut output: Vec<u8> = Vec::new();
    let outcome = runtime.run_full_stack(&mut input, &mut output, 100);
    assert_eq!(outcome, RunOutcome::Halted);
    runtime.clean_env();
    assert_eq!(runtime.instruction, 0);
    assert_eq!(runtime.pointer, 0);
    assert!(runtime.instruction_stack.is_empty());
    assert_eq!(runtime.memory, vec![0, 0, 0, 0]);
}

#[test]
fn new_runtime_starts_zeroed() {
    let runtime = BrainfuckRuntime::new();
    assert_eq!(runtime.memory.len(), 30000);
    assert_eq!(runtime.pointer, 0);
    assert_eq!(runtime.instruction, 0);
    assert!(runtime.instruction_stack.is_empty());
    assert!(runtime.memory.iter().all(|&c| c == 0));
    let defaulted = BrainfuckRuntime::default();
    assert_eq!(defaulted.memory.len(), 30000);
}

#[test]
fn find_matching_pairs_brackets_both_ways() {
    let tokens = Brainfuck::to_tokens(String::from("[[]]")).expect(DEFAULT_TEST_ERROR);
    assert_eq!(
        find_matching(
            &tokens,
            BFToken::JumpForwards,
            BFToken::JumpBackwards,
            0,
            IteratorOrder::FrontToBack
        ),
        Some(3)
    );
    assert_eq!(
        find_matching(
            &tokens,
            BFToken::JumpForwards,
            BFToken::JumpBackwards,
            3,
            IteratorOrder::BackToFront
        ),
        Some(0)
    );
    assert_eq!(
        find_matching(
            &tokens,
            BFToken::JumpForwards,
            BFToken::JumpBackwards,
            1,
            IteratorOrder::FrontToBack
        ),
        Some(2)
    );
}

#[test]
fn find_matching_reports_unbalanced_brackets() {
    let tokens = Brainfuck::to_tokens(String::from("[[")).expect(DEFAULT_TEST_ERROR);
    assert_eq!(
        find_matching(
            &tokens,
            BFToken::JumpForwards,
            BFToken::JumpBackwards,
            0,
            IteratorOrder::FrontToBack
        ),
        None
    );
}

#[test]
fn find_matching_substring_pairs_brackets_both_ways() {
    let chars: Vec<char> = "!??!".chars().collect();
    assert_eq!(
        find_matching_substring(&chars, "!?", "?!", 0, IteratorOrder::FrontToBack),
        Some(2)
    );
    assert_eq!(
        find_matching_substring(&chars, "!?", "?!", 2, IteratorOrder::BackToFront),
        Some(0)
    );
    let unbalanced: Vec<char> = "!?..".chars().collect();
    assert_eq!(
        find_matching_substring(&unbalanced, "!?", "?!", 0, IteratorOrder::FrontToBack),
        None
    );
}

#[test]
fn noop_characters_change_nothing() {
    let plain = Brainfuck::to_tokens(String::from("+-<>.,[]")).expect(DEFAULT_TEST_ERROR);
    let padded = Brainfuck::to_tokens(String::from(" +x-y<z> . , [ ] \n")).expect(DEFAULT_TEST_ERROR);
    assert_eq!(plain, padded);

    let (_, plain_out, plain_outcome) = run_program("++.", &[], 100);
    let (_, padded_out, padded_outcome) = run_program("comment + another + words .", &[], 100);
    assert_eq!(plain_outcome, padded_outcome);
    assert_eq!(plain_out, padded_out);
}

#[test]
fn brainfuck_round_trip() {
    let tokens = Brainfuck::to_tokens(String::from("+-<>.,[]")).expect(DEFAULT_TEST_ERROR);
    let mut rendered = String::new();
    for t in &tokens {
        rendered.push_str(&Brainfuck::token_to_string(*t).expect(DEFAULT_TEST_ERROR));
    }
    assert_eq!(rendered, "+-<>.,[]");
    let reparsed = Brainfuck::to_tokens(rendered).expect(DEFAULT_TEST_ERROR);
    assert_eq!(reparsed, tokens);
}

#[test]
fn ook_round_trip() {
    let tokens = Brainfuck::to_tokens(String::from("+-<>.,[]")).expect(DEFAULT_TEST_ERROR);
    let mut rendered = String::new();
    for t in &tokens {
        rendered.push_str(&Ook::token_to_string(*t).expect(DEFAULT_TEST_ERROR));
        rendered.push(' ');
    }
    let reparsed = Ook::to_tokens(rendered).expect(DEFAULT_TEST_ERROR);
    assert_eq!(reparsed, tokens);
}

#[test]
fn blub_round_trip() {
    let tokens = Brainfuck::to_tokens(String::from("+-<>.,[]")).expect(DEFAULT_TEST_ERROR);
    let mut rendered = String::new();
    for t in &tokens {
        rendered.push_str(&Blub::token_to_string(*t).expect(DEFAULT_TEST_ERROR));
        rendered.push(' ');
    }
    let reparsed = Blub::to_tokens(rendered).expect(DEFAULT_TEST_ERROR);
    assert_eq!(reparsed, tokens);
}

#[test]
fn custom_round_trip() {
    let custom = Custom::new('a', 's', 'l', 'r', 'p', 'i', 'f', 'b').expect("distinct symbols");
    let tokens = Brainfuck::to_tokens(String::from("+-<>.,[]")).expect(DEFAULT_TEST_ERROR);
    let mut rendered = String::new();
    for t in &tokens {
        rendered.push(t.to_custom(&custom).expect(DEFAULT_TEST_ERROR));
    }
    assert_eq!(rendered, "aslrpifb");
    let reparsed = custom.to_tokens(rendered).expect(DEFAULT_TEST_ERROR);
    assert_eq!(reparsed, tokens);
}

#[test]
fn ook_rejects_odd_symbol_count() {
    assert!(Ook::to_tokens(String::from("Ook. Ook. Ook.")).is_err());
}

#[test]
fn ook_tokenizes_example_program() {
    let tokens = Ook::to_tokens(String::from("Ook. Ook? Ook! Ook! Ook! Ook? Ook? Ook!"))
        .expect(DEFAULT_TEST_ERROR);
    assert_eq!(
        tokens,
        vec![
            BFToken::PtrRight,
            BFToken::CellSubtract,
            BFToken::JumpForwards,
            BFToken::JumpBackwards
        ]
    );
}

#[test]
fn token_to_string_rejects_noop() {
    assert!(Brainfuck::token_to_string(BFToken::NoOP).is_err());
    assert!(Ook::token_to_string(BFToken::NoOP).is_err());
    assert!(Blub::token_to_string(BFToken::NoOP).is_err());
    assert!(BFToken::NoOP.to_bf_char().is_err());
}

#[test]
fn token_renderings_match_their_dialects() {
    assert_eq!(Brainfuck::token_to_string(BFToken::CellAdd).unwrap(), "+");
    assert_eq!(Ook::token_to_string(BFToken::PtrRight).unwrap(), "Ook. Ook?");
    assert_eq!(Blub::token_to_string(BFToken::Input).unwrap(), "Blub. Blub!");
    assert_eq!(BFToken::JumpForwards.to_bf_char().unwrap(), '[');
}

#[test]
fn custom_mapping_rejects_duplicates() {
    assert!(Custom::new('a', 'a', 'l', 'r', 'p', 'i', 'f', 'b').is_err());
    assert!(Custom::new('a', 's', 'l', 'r', 'p', 'i', 'f', 'f').is_err());
    assert!(Custom::new('a', 's', 'l', 'r', 'p', 'i', 'f', 'b').is_ok());
}

#[test]
fn dialects_execute_identically() {
    let bf_program = "++>+.";
    let tokens = Brainfuck::to_tokens(String::from(bf_program)).expect(DEFAULT_TEST_ERROR);
    let mut ook_program = String::new();
    for t in &tokens {
        ook_program.push_str(&Ook::token_to_string(*t).expect(DEFAULT_TEST_ERROR));
        ook_program.push(' ');
    }

    let (_, bf_out, bf_outcome) = run_program(bf_program, &[], 100);

    let mut ook_runtime = BrainfuckRuntime::new();
    ook_runtime.add_tokens(Ook::to_tokens(ook_program).expect(DEFAULT_TEST_ERROR));
    let mut input: Vec<u8> = Vec::new();
    let mut ook_out: Vec<u8> = Vec::new();
    let ook_outcome = ook_runtime.run_full_stack(&mut input, &mut ook_out, 100);

    assert_eq!(bf_outcome, ook_outcome);
    assert_eq!(bf_out, ook_out);
}

#[test]
fn rightward_scan_halts_on_first_zero_cell() {
    let (runtime, _, outcome) = run_program("+[>]", &[], 100);
    assert_eq!(outcome, RunOutcome::Halted);
    assert_eq!(runtime.pointer, 1);
    assert_eq!(runtime.instruction, 4);
}

#[test]
fn read_and_write_follow_the_pointer() {
    let mut runtime = BrainfuckRuntime::with_memory_size(2);
    runtime.write_cell(42);
    assert_eq!(runtime.read_cell(), 42);
    runtime.op_ptr_right();
    assert_eq!(runtime.read_cell(), 0);
    runtime.op_ptr_left();
    assert_eq!(runtime.read_cell(), 42);
}
