use deet::stack::{MemSnapshot, walk_snapshot};
use deet::symbols::SymbolTable;
use deet::word::{TRAP_BYTE, align_addr_to_word, extract_byte, patch_word};

fn sample_symbols() -> SymbolTable {
    let mut syms = SymbolTable::new();
    syms.add_function("main".to_string(), 0x1000, 0x2000);
    syms.add_function("g".to_string(), 0x3000, 0x3800);
    syms.add_line(10, 0x1000, 0x2000);
    syms.add_line(42, 0x3000, 0x3800);
    syms
}

#[test]
fn test_backtrace_g_called_from_main() {
    // Stopped inside g, called from main: the chain is [g@42, main@10],
    // in that order, and the walk ends at the entry frame.
    let syms = sample_symbols();
    let mut mem = MemSnapshot::new();
    // g's frame at 0x7000: saved return address into main, and main's
    // frame base.
    mem.set_word(0x7008, 0x1500);
    mem.set_word(0x7000, 0x8000);
    let frames = walk_snapshot(&syms, &mem, 0x3100, 0x7000).expect("walk should succeed");
    assert_eq!(frames.len(), 2);
    assert_eq!(frames[0].func, "g");
    assert_eq!(frames[0].line, 42);
    assert_eq!(frames[1].func, "main");
    assert_eq!(frames[1].line, 10);
}

#[test]
fn test_backtrace_stopped_in_main() {
    let syms = sample_symbols();
    let mem = MemSnapshot::new();
    // Stopped in the entry function: one frame, no memory reads needed.
    let frames = walk_snapshot(&syms, &mem, 0x1080, 0x7000).expect("walk should succeed");
    assert_eq!(frames.len(), 1);
    assert_eq!(frames[0].func, "main");
}

#[test]
fn test_backtrace_unknown_pc_fails() {
    let syms = sample_symbols();
    let mem = MemSnapshot::new();
    assert!(walk_snapshot(&syms, &mem, 0x9999, 0x7000).is_none());
}

#[test]
fn test_backtrace_missing_frame_words_fails() {
    let syms = sample_symbols();
    let mem = MemSnapshot::new();
    // Stopped in g but the snapshot holds no frame chain.
    assert!(walk_snapshot(&syms, &mem, 0x3100, 0x7000).is_none());
}

#[test]
fn test_backtrace_cyclic_chain_hits_depth_bound() {
    // A malformed frame chain that loops forever must be cut off by the
    // depth bound instead of walking past the entry frame.
    let syms = sample_symbols();
    let mut mem = MemSnapshot::new();
    mem.set_word(0x7008, 0x3100);
    mem.set_word(0x7000, 0x7000);
    assert!(walk_snapshot(&syms, &mem, 0x3100, 0x7000).is_none());
}

#[test]
fn test_symbol_lookups() {
    let syms = sample_symbols();
    assert_eq!(syms.get_function_from_addr(0x1500), Some("main".to_string()));
    assert_eq!(syms.get_function_from_addr(0x2800), None);
    assert_eq!(syms.get_line_from_addr(0x3000), Some(42));
    assert_eq!(syms.get_addr_for_function("g"), Some(0x3000));
    assert_eq!(syms.get_addr_for_function("missing"), None);
    assert_eq!(syms.get_addr_for_line(10), Some(0x1000));
    assert_eq!(syms.get_addr_for_line(11), None);
}

#[test]
fn test_symbol_lookup_takes_first_match() {
    // Overlapping entries: a lookup returns the first entry whose range
    // holds the address.
    let mut syms = SymbolTable::new();
    syms.add_function("outer".to_string(), 0x1000, 0x4000);
    syms.add_function("inner".to_string(), 0x2000, 0x3000);
    assert_eq!(syms.get_function_from_addr(0x2500), Some("outer".to_string()));
    let mut mem = MemSnapshot::new();
    mem.set_word(0x10, 1);
    mem.set_word(0x10, 2);
    assert_eq!(mem.read_word(0x10), Some(1));
}

#[test]
fn test_word_patching_arms_and_restores() {
    // Arming writes the trap opcode into exactly one byte of the word;
    // restoring the displaced byte gives the original word back.
    let word: u64 = 0x1122_3344_5566_7788;
    let addr: u64 = 0x401003;
    let aligned = align_addr_to_word(addr);
    assert_eq!(aligned, 0x401000);
    let offset = addr - aligned;
    let orig = extract_byte(word, offset);
    assert_eq!(orig, 0x55);
    let armed = patch_word(word, offset, TRAP_BYTE);
    assert_eq!(extract_byte(armed, offset), TRAP_BYTE);
    for i in 0..8 {
        if i != offset {
            assert_eq!(extract_byte(armed, i), extract_byte(word, i));
        }
    }
    assert_eq!(patch_word(armed, offset, orig), word);
}
