use brainfuck_interpreter::program_from_bytes;
use brainfuck_interpreter::run;
use brainfuck_interpreter::ErrorKind;
use brainfuck_interpreter::Profile;
use brainfuck_interpreter::VmError;

const PLENTY: u64 = 1_000_000;

fn program(text: &str) -> Vec<u32> {
    program_from_bytes(&text.as_bytes().to_vec())
}

#[test]
fn program_from_bytes_appends_sentinel() {
    let p = program_from_bytes(&vec![b'+', b'.']);
    assert_eq!(p, vec![43, 46, 0]);
    let empty = program_from_bytes(&Vec::new());
    assert_eq!(empty, vec![0]);
}

#[test]
fn empty_program_completes_at_once() {
    let res = run(&vec![0], &Vec::new(), Profile::Host, PLENTY).unwrap();
    assert_eq!(res.output, Vec::<u8>::new());
    assert_eq!(res.instr_count, Some(0));
}

#[test]
fn missing_sentinel_is_malformed() {
    let err = run(&Vec::new(), &Vec::new(), Profile::Host, PLENTY).unwrap_err();
    assert_eq!(err, VmError { kind: ErrorKind::MalformedProgram, pc: 0 });
    let err = run(&vec![43], &Vec::new(), Profile::Host, PLENTY).unwrap_err();
    assert_eq!(err, VmError { kind: ErrorKind::MalformedProgram, pc: 1 });
}

#[test]
fn unmatched_close_fails_at_its_pc() {
    let err = run(&program("]"), &Vec::new(), Profile::Host, PLENTY).unwrap_err();
    assert_eq!(err, VmError { kind: ErrorKind::MalformedProgram, pc: 0 });
    let err = run(&program("++]"), &vec![7], Profile::Guest, PLENTY).unwrap_err();
    assert_eq!(err, VmError { kind: ErrorKind::MalformedProgram, pc: 2 });
}

#[test]
fn open_bracket_without_close_is_malformed() {
    let err = run(&program("["), &Vec::new(), Profile::Host, PLENTY).unwrap_err();
    assert_eq!(err, VmError { kind: ErrorKind::MalformedProgram, pc: 0 });
}

#[test]
fn loop_terminates_with_exact_count() {
    let res = run(&program("+[>+<-]"), &Vec::new(), Profile::Host, PLENTY).unwrap();
    assert_eq!(res.output, Vec::<u8>::new());
    assert_eq!(res.instr_count, Some(8));
}

#[test]
fn loop_trip_count_lands_in_next_cell() {
    let res = run(&program("+++[>+<-]>."), &Vec::new(), Profile::Host, PLENTY).unwrap();
    assert_eq!(res.output, vec![3]);
}

#[test]
fn zero_cell_loop_skips_nested_brackets() {
    let res = run(&program("[[]]+."), &Vec::new(), Profile::Host, PLENTY).unwrap();
    assert_eq!(res.output, vec![1]);
    assert_eq!(res.instr_count, Some(3));
}

#[test]
fn nested_loops_multiply() {
    let res = run(&program("++[>++[>+<-]<-]>>."), &Vec::new(), Profile::Host, PLENTY).unwrap();
    assert_eq!(res.output, vec![4]);
}

#[test]
fn tolerant_discipline_reads_fifo() {
    let res = run(&program(",.,.,."), &vec![1, 2, 3], Profile::Host, PLENTY).unwrap();
    assert_eq!(res.output, vec![1, 2, 3]);
}

#[test]
fn strict_discipline_reads_lifo() {
    let res = run(&program(",.,.,."), &vec![1, 2, 3], Profile::Guest, PLENTY).unwrap();
    assert_eq!(res.output, vec![3, 2, 1]);
    assert_eq!(res.instr_count, None);
}

#[test]
fn tolerant_exhaustion_yields_sentinel_value() {
    let res = run(&program(",,,,."), &vec![1, 2, 3], Profile::Host, PLENTY).unwrap();
    assert_eq!(res.output, vec![255]);
    assert_eq!(res.instr_count, Some(5));
}

#[test]
fn strict_exhaustion_is_fatal() {
    let err = run(&program(",,,,."), &vec![1, 2, 3], Profile::Guest, PLENTY).unwrap_err();
    assert_eq!(err, VmError { kind: ErrorKind::InputExhausted, pc: 3 });
}

#[test]
fn output_round_trip_single_byte() {
    let res = run(&program("++."), &Vec::new(), Profile::Host, PLENTY).unwrap();
    assert_eq!(res.output, vec![2]);
    assert_eq!(res.instr_count, Some(3));
}

#[test]
fn output_takes_low_eight_bits() {
    let res = run(&program("-."), &Vec::new(), Profile::Host, PLENTY).unwrap();
    assert_eq!(res.output, vec![255]);
}

#[test]
fn ignored_codes_are_counted_but_do_nothing() {
    let p = program_from_bytes(&vec![b'a', b'+', b'b', b'.']);
    let res = run(&p, &Vec::new(), Profile::Host, PLENTY).unwrap();
    assert_eq!(res.output, vec![1]);
    assert_eq!(res.instr_count, Some(4));
}

#[test]
fn pointer_before_cell_zero_is_out_of_bounds() {
    let err = run(&program("<"), &Vec::new(), Profile::Host, PLENTY).unwrap_err();
    assert_eq!(err, VmError { kind: ErrorKind::OutOfBoundsAccess, pc: 0 });
}

#[test]
fn pointer_past_last_cell_is_out_of_bounds() {
    let mut p: Vec<u32> = vec![62; 30000];
    p.push(0);
    let err = run(&p, &Vec::new(), Profile::Host, PLENTY).unwrap_err();
    assert_eq!(err, VmError { kind: ErrorKind::OutOfBoundsAccess, pc: 29999 });
}

#[test]
fn runaway_loop_stops_at_step_limit() {
    let err = run(&program("+[]"), &Vec::new(), Profile::Host, 10).unwrap_err();
    assert_eq!(err.kind, ErrorKind::StepLimitReached);
}

#[test]
fn sentinel_fetch_at_step_limit_still_completes() {
    let res = run(&program("++"), &Vec::new(), Profile::Host, 2).unwrap();
    assert_eq!(res.output, Vec::<u8>::new());
    assert_eq!(res.instr_count, Some(2));
}

#[test]
fn hello_world_host() {
    let text = "++++++++[>++++[>++>+++>+++>+<<<<-]>+>+>->>+[<]<-]>>.>---.+++++++..+++.>>.<-.<.+++.------.--------.>>+.>++.";
    let res = run(&program(text), &Vec::new(), Profile::Host, PLENTY).unwrap();
    assert_eq!(res.output, b"Hello World!\n".to_vec());
    assert!(res.instr_count.is_some());
}

#[test]
fn hello_world_guest() {
    let text = "++++++++[>++++[>++>+++>+++>+<<<<-]>+>+>->>+[<]<-]>>.>---.+++++++..+++.>>.<-.<.+++.------.--------.>>+.>++.";
    let res = run(&program(text), &Vec::new(), Profile::Guest, PLENTY).unwrap();
    assert_eq!(res.output, b"Hello World!\n".to_vec());
    assert_eq!(res.instr_count, None);
}

#[test]
fn independent_runs_agree() {
    let p = program("+++[>+<-]>.,.");
    let ins = vec![65, 66];
    let first = run(&p, &ins, Profile::Host, PLENTY).unwrap();
    let second = run(&p, &ins, Profile::Host, PLENTY).unwrap();
    assert_eq!(first.output, second.output);
    assert_eq!(first.instr_count, second.instr_count);
}
