use arbos::db::{AsmMap, WasmTarget};
use arbos::journal::{ArbOsJournal, ArbOsJournaledState, STYLUS_DISCRIMINANT};

type Journal = ArbOsJournaledState<&'static str>;

fn asms(target: WasmTarget, code: &[u8]) -> AsmMap {
    let mut map = AsmMap::new();
    map.insert(target, code.to_vec());
    map
}

#[test]
fn new_journal_is_empty() {
    let journal = Journal::new("state");
    assert_eq!(*journal.inner(), "state");
    assert_eq!(journal.get_stylus_pages(), (0, 0));
    assert_eq!(journal.try_get_activated_asm(WasmTarget::HOST, [0; 32]), None);
}

#[test]
fn inner_journal_can_be_changed() {
    let mut journal = Journal::new("before");
    journal.add_stylus_pages(7);
    *journal.inner_mut() = "after";
    assert_eq!(*journal.inner(), "after");
    assert_eq!(journal.get_stylus_pages(), (7, 7));
}

#[test]
fn discriminant_marks_stylus_programs() {
    assert_eq!(STYLUS_DISCRIMINANT, [0xEF, 0xF0, 0x00]);
    assert!(Journal::is_stylus_program(&[0xEF, 0xF0, 0x00, 0x00]));
    assert!(Journal::is_stylus_program(&[0xEF, 0xF0, 0x00, 0x09, 1, 2, 3]));
    assert!(!Journal::is_stylus_program(&[0xEF, 0xF0, 0x00]));
    assert!(!Journal::is_stylus_program(&[]));
    assert!(!Journal::is_stylus_program(&[0xEF, 0xF0, 0x01, 0x00]));
    assert!(!Journal::is_stylus_program(&[0xEF, 0xF1, 0x00, 0x00]));
    assert!(!Journal::is_stylus_program(&[0xEE, 0xF0, 0x00, 0x00]));
}

#[test]
fn prefix_holds_the_dictionary() {
    assert_eq!(Journal::new_stylus_prefix(0), vec![0xEF, 0xF0, 0x00, 0x00]);
    assert_eq!(Journal::new_stylus_prefix(0xAB), vec![0xEF, 0xF0, 0x00, 0xAB]);
}

#[test]
fn strip_undoes_prefix() {
    for program in [&b""[..], &b"p"[..], &b"program"[..]] {
        let mut code = Journal::new_stylus_prefix(5);
        code.extend_from_slice(program);
        let (stripped, dictionary) = Journal::strip_stylus_prefix(&code).unwrap();
        assert_eq!(stripped, program);
        assert_eq!(dictionary, 5);
    }
}

#[test]
fn prefix_undoes_strip() {
    let code = [0xEF, 0xF0, 0x00, 0x02, 9, 8, 7];
    let (program, dictionary) = Journal::strip_stylus_prefix(&code).unwrap();
    let mut again = Journal::new_stylus_prefix(dictionary);
    again.extend_from_slice(program);
    assert_eq!(again, code);
}

#[test]
fn strip_refuses_other_code() {
    let error = Journal::strip_stylus_prefix(&[0x60, 0x80, 0x60, 0x40]).unwrap_err();
    assert_eq!(error, "specified bytecode is not a Stylus program");
    assert!(Journal::strip_stylus_prefix(&[0xEF, 0xF0, 0x00]).is_err());
}

#[test]
fn pages_count_up() {
    let mut journal = Journal::new("");
    assert_eq!(journal.add_stylus_pages(3), (0, 0));
    assert_eq!(journal.get_stylus_pages(), (3, 3));
    assert_eq!(journal.add_stylus_pages(0), (3, 3));
    assert_eq!(journal.add_stylus_pages(4), (3, 3));
    assert_eq!(journal.get_stylus_pages(), (7, 7));
}

#[test]
fn pages_stop_at_the_largest_count() {
    let mut journal = Journal::new("");
    journal.add_stylus_pages(65_000);
    assert_eq!(journal.add_stylus_pages(1_000), (65_000, 65_000));
    assert_eq!(journal.get_stylus_pages(), (65_535, 65_535));
    journal.add_stylus_pages(1);
    assert_eq!(journal.get_stylus_pages(), (65_535, 65_535));
}

#[test]
fn pages_add_up_in_any_order() {
    let mut one = Journal::new("");
    one.add_stylus_pages(40);
    one.add_stylus_pages(2);
    let mut two = Journal::new("");
    two.add_stylus_pages(2);
    two.add_stylus_pages(40);
    let mut sum = Journal::new("");
    sum.add_stylus_pages(42);
    assert_eq!(one.get_stylus_pages(), two.get_stylus_pages());
    assert_eq!(one.get_stylus_pages(), sum.get_stylus_pages());
}

#[test]
fn pages_add_up_to_the_largest_count() {
    let mut parts = Journal::new("");
    parts.add_stylus_pages(40_000);
    parts.add_stylus_pages(30_000);
    let mut whole = Journal::new("");
    whole.add_stylus_pages(u16::MAX);
    assert_eq!(parts.get_stylus_pages(), (65_535, 65_535));
    assert_eq!(parts.get_stylus_pages(), whole.get_stylus_pages());
}

#[test]
fn activated_code_is_found_by_target() {
    let mut journal = Journal::new("");
    let mut map = asms(WasmTarget::ARM64, &[1]);
    map.insert(WasmTarget::AMD64, vec![2, 2]);
    journal.activate_wasm([7; 32], map);
    assert_eq!(journal.try_get_activated_asm(WasmTarget::ARM64, [7; 32]), Some(vec![1]));
    assert_eq!(journal.try_get_activated_asm(WasmTarget::AMD64, [7; 32]), Some(vec![2, 2]));
    assert_eq!(journal.try_get_activated_asm(WasmTarget::WAVM, [7; 32]), None);
    assert_eq!(journal.try_get_activated_asm(WasmTarget::HOST, [7; 32]), None);
    assert_eq!(journal.try_get_activated_asm(WasmTarget::ARM64, [8; 32]), None);
}

#[test]
fn first_activation_decides() {
    let mut journal = Journal::new("");
    journal.activate_wasm([7; 32], asms(WasmTarget::HOST, &[1]));
    let mut later = asms(WasmTarget::HOST, &[9]);
    later.insert(WasmTarget::WAVM, vec![9]);
    journal.activate_wasm([7; 32], later);
    assert_eq!(journal.try_get_activated_asm(WasmTarget::HOST, [7; 32]), Some(vec![1]));
    assert_eq!(journal.try_get_activated_asm(WasmTarget::WAVM, [7; 32]), None);
    assert_eq!(journal.get_stylus_pages(), (0, 0));
}

#[test]
fn activation_is_local() {
    let mut journal = Journal::new("");
    // Hashes that share one half or the other.
    let mut a = [1; 32];
    let mut b = [1; 32];
    a[0] = 9;
    b[31] = 9;
    journal.activate_wasm([1; 32], asms(WasmTarget::HOST, &[0]));
    journal.activate_wasm(a, asms(WasmTarget::HOST, &[10]));
    journal.activate_wasm(b, asms(WasmTarget::HOST, &[20]));
    assert_eq!(journal.try_get_activated_asm(WasmTarget::HOST, [1; 32]), Some(vec![0]));
    assert_eq!(journal.try_get_activated_asm(WasmTarget::HOST, a), Some(vec![10]));
    assert_eq!(journal.try_get_activated_asm(WasmTarget::HOST, b), Some(vec![20]));
}

#[test]
fn later_code_for_a_target_replaces_earlier() {
    let mut map = asms(WasmTarget::WAVM, &[1]);
    map.insert(WasmTarget::WAVM, vec![2]);
    assert_eq!(map.get(WasmTarget::WAVM), Some(vec![2]));
    assert_eq!(map.get(WasmTarget::HOST), None);
}
