use lib::reader::{has_bytes, load8, load64, loadstr};
use lib::loader::{binop_from_idx, parse_argument, parse_funcarg};
use lib::ir::{IRBinop, IROpArg};

#[test]
fn load8_reads_the_byte_at_offset() {
    let bytes = vec![0x10u8, 0x20, 0x30];
    assert_eq!(load8(&bytes, 0), 0x10);
    assert_eq!(load8(&bytes, 2), 0x30);
}

#[test]
fn load64_is_little_endian() {
    let bytes = vec![0xAAu8, 1, 2, 3, 4, 5, 6, 7, 8];
    assert_eq!(load64(&bytes, 1), 0x0807_0605_0403_0201);
    assert_eq!(load64(&[0xFFu8; 8], 0), u64::MAX);
    let mut one = vec![0u8; 8];
    one[0] = 1;
    assert_eq!(load64(&one, 0), 1);
}

#[test]
fn loadstr_adds_a_terminating_zero() {
    let mut bytes = vec![9u8];
    bytes.extend_from_slice(&3u64.to_le_bytes());
    bytes.extend_from_slice(b"abcXYZ");
    let s = loadstr(&bytes, 1);
    assert_eq!(s.length, 3);
    assert_eq!(s.content, b"abc\0".to_vec());
}

#[test]
fn loadstr_of_empty_string() {
    let bytes = 0u64.to_le_bytes().to_vec();
    let s = loadstr(&bytes, 0);
    assert_eq!(s.length, 0);
    assert_eq!(s.content, vec![0u8]);
}

#[test]
fn has_bytes_checks_the_end() {
    let bytes = vec![0u8; 10];
    assert!(has_bytes(&bytes, 2, 8));
    assert!(!has_bytes(&bytes, 3, 8));
    assert!(has_bytes(&bytes, 10, 0));
    assert!(!has_bytes(&bytes, 11, 0));
    assert!(!has_bytes(&bytes, usize::MAX, 2));
}

#[test]
fn binop_indices_follow_the_table() {
    let expected = [
        IRBinop::Plus,
        IRBinop::Minus,
        IRBinop::Mod,
        IRBinop::Div,
        IRBinop::Mult,
        IRBinop::Less,
        IRBinop::Greater,
        IRBinop::Equal,
        IRBinop::NotEqual,
        IRBinop::GreaterEqual,
        IRBinop::LessEqual,
        IRBinop::BitOr,
        IRBinop::BitAnd,
        IRBinop::BitShl,
        IRBinop::BitShr,
    ];
    for (i, op) in expected.iter().enumerate() {
        assert_eq!(binop_from_idx(i as u8), Some(*op));
    }
    assert_eq!(binop_from_idx(0x0F), None);
    assert_eq!(binop_from_idx(0xFF), None);
}

fn tagged(tag: u8, w: u64) -> Vec<u8> {
    let mut v = vec![tag];
    v.extend_from_slice(&w.to_le_bytes());
    v
}

#[test]
fn parse_argument_reads_every_tag() {
    let cases = [
        (1u8, IROpArg::AutoVar(7)),
        (2, IROpArg::Deref(7)),
        (3, IROpArg::RefExternal(7)),
        (4, IROpArg::RefAutoVar(7)),
        (5, IROpArg::Literal(7)),
        (6, IROpArg::DataOffset(7)),
        (7, IROpArg::External(7)),
    ];
    for (tag, arg) in cases.iter() {
        let bytes = tagged(*tag, 7);
        let mut off = 0usize;
        assert_eq!(parse_argument(&bytes, &mut off), Some(*arg));
        assert_eq!(off, 9);
    }
    let bogus = vec![0u8, 0xEE];
    let mut off = 0usize;
    assert_eq!(parse_argument(&bogus, &mut off), Some(IROpArg::Bogus));
    assert_eq!(off, 1);
}

#[test]
fn parse_argument_refuses_unknown_tag_and_truncation() {
    let bytes = tagged(8, 1);
    let mut off = 0usize;
    assert_eq!(parse_argument(&bytes, &mut off), None);
    assert_eq!(off, 0);
    let short = vec![5u8, 1, 2];
    let mut off = 0usize;
    assert_eq!(parse_argument(&short, &mut off), None);
    assert_eq!(off, 0);
    let mut off = 3usize;
    assert_eq!(parse_argument(&short, &mut off), None);
    assert_eq!(off, 3);
}

#[test]
fn parse_funcarg_reads_names_and_operands() {
    let named = tagged(0, 42);
    let mut off = 0usize;
    assert_eq!(parse_funcarg(&named, &mut off), Some(IROpArg::External(42)));
    assert_eq!(off, 9);

    let mut nested = vec![1u8];
    nested.extend(tagged(1, 3));
    let mut off = 0usize;
    assert_eq!(parse_funcarg(&nested, &mut off), Some(IROpArg::AutoVar(3)));
    assert_eq!(off, 10);

    let bad = tagged(2, 1);
    let mut off = 0usize;
    assert_eq!(parse_funcarg(&bad, &mut off), None);
    assert_eq!(off, 0);
}
