use crackme::fingerprint::{hash, MULTIPLIER};
use crackme::flag::{check_flag, check_flag_against, targets, CHUNK_COUNT, CHUNK_LEN, FLAG_LEN};
use crackme::oracle::{reply, respond};

const SECRET: &str = "E2DAE8C479AEE65BFFBC0DA49C195C99";

const TABLE: [u64; 8] = [
    11200688220910254682,
    11200380368408825194,
    16146349676620574858,
    11200565025114669588,
    12165273152048139049,
    9396870039570576529,
    18071888434317316754,
    14218471961505630534,
];

fn table_for(flag: &str) -> [u64; 8] {
    let b = flag.as_bytes();
    let mut t = [0u64; 8];
    for k in 0..CHUNK_COUNT {
        t[k] = hash(&b[k * CHUNK_LEN..(k + 1) * CHUNK_LEN]);
    }
    t
}

#[test]
fn hash_of_empty_is_zero() {
    assert_eq!(hash(&[]), 0);
}

#[test]
fn hash_of_one_byte() {
    assert_eq!(hash(b"a"), 97 * MULTIPLIER);
    assert_eq!(hash(&[0]), 0);
}

#[test]
fn hash_wraps_on_overflow() {
    assert_eq!(hash(b"ab"), 95253794083);
    assert_eq!(hash(b"E2DA"), 11200688220910254682);
}

#[test]
fn hash_of_short_chunk() {
    let expected = ((((u64::from(b'x')) * MULTIPLIER) ^ u64::from(b'y')).wrapping_mul(MULTIPLIER)
        ^ u64::from(b'z'))
    .wrapping_mul(MULTIPLIER);
    assert_eq!(hash(b"xyz"), expected);
}

#[test]
fn hash_is_deterministic() {
    let s = b"0DA4";
    assert_eq!(hash(s), hash(s));
    assert_eq!(hash(s), hash(&s.to_vec()));
}

#[test]
fn hash_is_order_sensitive() {
    assert_eq!(hash(b"ba"), 96237775883);
    assert_ne!(hash(b"ab"), hash(b"ba"));
    assert_ne!(hash(b"E2DA"), hash(b"AD2E"));
}

#[test]
fn embedded_table() {
    assert_eq!(targets(), TABLE);
}

#[test]
fn known_flag_is_accepted() {
    assert!(check_flag(SECRET));
}

#[test]
fn wrong_lengths_are_rejected() {
    assert!(!check_flag(""));
    assert!(!check_flag(&SECRET[..31]));
    assert!(!check_flag(&format!("{}0", SECRET)));
    assert!(!check_flag("E2DAE8C479"));
    assert_eq!(FLAG_LEN, 32);
}

#[test]
fn every_single_character_mutation_is_rejected() {
    for i in 0..SECRET.len() {
        for c in (b'0'..=b'9').chain(b'A'..=b'Z').chain(b'a'..=b'z') {
            let mut m = SECRET.as_bytes().to_vec();
            if m[i] == c {
                continue;
            }
            m[i] = c;
            let m = String::from_utf8(m).unwrap();
            assert!(!check_flag(&m), "{}", m);
        }
    }
}

#[test]
fn other_flag_of_right_length_is_rejected() {
    assert!(!check_flag("00000000000000000000000000000000"));
    assert!(!check_flag("E2DAE8C479AEE65BFFBC0DA49C195C9A"));
}

#[test]
fn supplied_table_decides() {
    let other = "0123456789abcdef0123456789ABCDEF";
    let t = table_for(other);
    assert!(check_flag_against(other, &t));
    assert!(!check_flag_against(SECRET, &t));
    assert!(!check_flag(other));
    assert!(check_flag_against(SECRET, &TABLE));
}

#[test]
fn multibyte_length_counts_bytes() {
    let s = "ééééééééééééééé";
    assert_eq!(s.chars().count(), 15);
    assert_eq!(s.len(), 30);
    assert!(!check_flag(s));
    let s32 = "éééééééééééééééé";
    assert_eq!(s32.len(), 32);
    let t = table_for(s32);
    assert!(check_flag_against(s32, &t));
}

#[test]
fn reply_tokens() {
    assert_eq!(reply(true), "gj");
    assert_eq!(reply(false), "bj");
}

#[test]
fn correct_line_gets_gj() {
    assert_eq!(respond("E2DAE8C479AEE65BFFBC0DA49C195C99\n"), "gj");
    assert_eq!(respond("  E2DAE8C479AEE65BFFBC0DA49C195C99 \r\n"), "gj");
}

#[test]
fn wrong_line_gets_bj() {
    assert_eq!(respond("E2DAE8C479AEE65BFFBC0DA49C195C98\n"), "bj");
    assert_eq!(respond("00000000000000000000000000000000\n"), "bj");
    assert_eq!(respond("\n"), "bj");
}

#[test]
fn ten_characters_get_bj() {
    assert_eq!(respond("E2DAE8C479\n"), "bj");
}

#[test]
fn same_line_same_token() {
    for line in ["E2DAE8C479AEE65BFFBC0DA49C195C99\n", "abc\n", "E2DAE8C479AEE65BFFBC0DA49C195C9\n"] {
        assert_eq!(respond(line), respond(line));
    }
}
