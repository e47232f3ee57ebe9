use yyid::fmts::{Braced, Hyphenated, Simple, Urn};
use yyid::refs::{HyphenatedRef, SimpleRef, UrnRef};
use yyid::Yyid;

/// A new random identifier; the tests need a working entropy source.
fn fresh() -> Yyid {
    Yyid::new().expect("the entropy source is available")
}

const SAMPLE: [u8; 16] = [
    0x02, 0xe7, 0xf0, 0xf6, 0x06, 0x7e, 0x8c, 0x92, 0xb2, 0x5c, 0x12, 0xc9, 0x18, 0x05, 0x40, 0xa9,
];

fn is_lower_hex(c: char) -> bool {
    c.is_ascii_digit() || ('a'..='f').contains(&c)
}

#[test]
fn test_to_hyphenated_string() {
    let yyid = fresh();
    let ystr = yyid.hyphenated().to_string();

    assert_eq!(ystr.len(), 36);
    assert!(ystr.chars().all(|c| c.is_ascii_hexdigit() || c == '-'));
}

#[test]
fn test_to_simple_string() {
    let yyid = fresh();
    let ystr = yyid.simple().to_string();

    assert_eq!(ystr.len(), 32);
    assert!(ystr.chars().all(|c| c.is_ascii_hexdigit()));
}

#[test]
fn test_to_urn_string() {
    let yyid = fresh();
    let yurn = yyid.urn().to_string();

    assert!(yurn.starts_with("urn:yyid:"));
    assert_eq!(yurn.len(), 45);
    assert!(yurn[9..].chars().all(|c| c.is_ascii_hexdigit() || c == '-'));
}

#[test]
fn test_to_braced_string() {
    let yyid = fresh();
    let ybraced = yyid.braced().to_string();

    assert!(ybraced.starts_with("{"));
    assert!(ybraced.ends_with("}"));
    assert_eq!(ybraced.len(), 38);
    assert!(ybraced[1..36].chars().all(|c| c.is_ascii_hexdigit() || c == '-'));
}

#[test]
fn test_to_simple_string_matching() {
    let yyid = fresh();

    let yhyphen = yyid.to_string();
    let ysimple = yyid.simple().to_string();

    let ysimplified = yhyphen.chars().filter(|&c| c != '-').collect::<String>();

    assert_eq!(ysimplified, ysimple);
}

#[test]
fn sample_in_every_form() {
    let id = Yyid::from_bytes(SAMPLE);
    assert_eq!(id.to_string(), "02e7f0f6-067e-8c92-b25c-12c9180540a9");
    assert_eq!(id.hyphenated().to_string(), "02e7f0f6-067e-8c92-b25c-12c9180540a9");
    assert_eq!(id.simple().to_string(), "02e7f0f6067e8c92b25c12c9180540a9");
    assert_eq!(id.braced().to_string(), "{02e7f0f6-067e-8c92-b25c-12c9180540a9}");
    assert_eq!(id.urn().to_string(), "urn:yyid:02e7f0f6-067e-8c92-b25c-12c9180540a9");
}

#[test]
fn sample_in_upper_case() {
    let id = Yyid::from_bytes(SAMPLE);
    let mut buffer = [0u8; 45];
    assert_eq!(
        id.hyphenated().encode_upper(&mut buffer),
        "02E7F0F6-067E-8C92-B25C-12C9180540A9"
    );
    assert_eq!(id.simple().encode_upper(&mut buffer), "02E7F0F6067E8C92B25C12C9180540A9");
    assert_eq!(
        id.braced().encode_upper(&mut buffer),
        "{02E7F0F6-067E-8C92-B25C-12C9180540A9}"
    );
    assert_eq!(
        id.urn().encode_upper(&mut buffer),
        "urn:yyid:02E7F0F6-067E-8C92-B25C-12C9180540A9"
    );
}

#[test]
fn sample_in_lower_case_into_buffer() {
    let id = Yyid::from_bytes(SAMPLE);
    let mut buffer = [0u8; 45];
    assert_eq!(
        id.hyphenated().encode_lower(&mut buffer),
        "02e7f0f6-067e-8c92-b25c-12c9180540a9"
    );
    assert_eq!(id.simple().encode_lower(&mut buffer), "02e7f0f6067e8c92b25c12c9180540a9");
    assert_eq!(
        id.braced().encode_lower(&mut buffer),
        "{02e7f0f6-067e-8c92-b25c-12c9180540a9}"
    );
    assert_eq!(
        id.urn().encode_lower(&mut buffer),
        "urn:yyid:02e7f0f6-067e-8c92-b25c-12c9180540a9"
    );
}

#[test]
fn encoding_leaves_the_rest_of_the_buffer() {
    let id = Yyid::from_bytes(SAMPLE);
    let mut buffer = [b'#'; 40];
    let text = id.simple().encode_lower(&mut buffer).to_string();
    assert_eq!(text, "02e7f0f6067e8c92b25c12c9180540a9");
    assert_eq!(&buffer[..32], text.as_bytes());
    assert!(buffer[32..].iter().all(|&b| b == b'#'));

    let mut buffer = [b'#'; 40];
    id.braced().encode_lower(&mut buffer);
    assert_eq!(&buffer[..38], b"{02e7f0f6-067e-8c92-b25c-12c9180540a9}");
    assert_eq!(&buffer[38..], b"##");
}

#[test]
fn exact_size_buffers() {
    let id = Yyid::from_bytes([0xff; 16]);
    let mut buffer = [0u8; 32];
    assert_eq!(id.simple().encode_lower(&mut buffer), "ffffffffffffffffffffffffffffffff");
    let mut buffer = [0u8; 36];
    assert_eq!(
        id.hyphenated().encode_upper(&mut buffer),
        "FFFFFFFF-FFFF-FFFF-FFFF-FFFFFFFFFFFF"
    );
    let mut buffer = [0u8; 38];
    assert_eq!(
        id.braced().encode_lower(&mut buffer),
        "{ffffffff-ffff-ffff-ffff-ffffffffffff}"
    );
    let mut buffer = [0u8; 45];
    assert_eq!(
        id.urn().encode_lower(&mut buffer),
        "urn:yyid:ffffffff-ffff-ffff-ffff-ffffffffffff"
    );
}

#[test]
fn nil_in_every_form() {
    let nil = Yyid::nil();
    assert_eq!(nil.hyphenated().to_string(), "00000000-0000-0000-0000-000000000000");
    assert_eq!(nil.simple().to_string(), "00000000000000000000000000000000");
    assert_eq!(nil.braced().to_string(), "{00000000-0000-0000-0000-000000000000}");
    assert_eq!(nil.urn().to_string(), "urn:yyid:00000000-0000-0000-0000-000000000000");
}

#[test]
fn every_digit_value_in_both_cases() {
    let mut bytes = [0u8; 16];
    for (i, b) in bytes.iter_mut().enumerate() {
        *b = (i as u8) * 0x11;
    }
    let id = Yyid::from_bytes(bytes);
    assert_eq!(id.simple().to_string(), "00112233445566778899aabbccddeeff");
    let mut buffer = [0u8; 32];
    assert_eq!(id.simple().encode_upper(&mut buffer), "00112233445566778899AABBCCDDEEFF");
}

#[test]
fn lengths_of_every_form() {
    assert_eq!(Hyphenated::LENGTH, 36);
    assert_eq!(Simple::LENGTH, 32);
    assert_eq!(Braced::LENGTH, 38);
    assert_eq!(Urn::LENGTH, 45);
    assert_eq!(HyphenatedRef::LENGTH, 36);
    assert_eq!(SimpleRef::LENGTH, 32);
    assert_eq!(UrnRef::LENGTH, 45);
    for _ in 0..16 {
        let id = fresh();
        assert_eq!(id.simple().to_string().len(), 32);
        assert_eq!(id.hyphenated().to_string().len(), 36);
        assert_eq!(id.braced().to_string().len(), 38);
        assert_eq!(id.urn().to_string().len(), 45);
    }
}

#[test]
fn shapes_of_every_form() {
    for _ in 0..16 {
        let id = fresh();
        let simple = id.simple().to_string();
        assert!(simple.chars().all(is_lower_hex));
        let hyphenated = id.hyphenated().to_string();
        for (j, c) in hyphenated.chars().enumerate() {
            if j == 8 || j == 13 || j == 18 || j == 23 {
                assert_eq!(c, '-');
            } else {
                assert!(is_lower_hex(c));
            }
        }
        assert_eq!(id.braced().to_string(), format!("{{{}}}", hyphenated));
        assert_eq!(id.urn().to_string(), format!("urn:yyid:{}", hyphenated));
        assert_eq!(hyphenated.replace('-', ""), simple);
    }
}

#[test]
fn views_give_back_the_identifier() {
    let id = Yyid::from_bytes(SAMPLE);
    assert_eq!(Hyphenated::from_yyid(id).into_yyid(), id);
    assert_eq!(*Simple::from_yyid(id).as_yyid(), id);
    assert_eq!(Urn::from_yyid(id).into_yyid(), id);
    assert_eq!(*Braced::from_yyid(id).as_yyid(), id);
    assert_eq!(Yyid::from(Hyphenated::from(id)), id);
    assert_eq!(Yyid::from(Simple::from(id)), id);
    assert_eq!(Yyid::from(Urn::from(id)), id);
    assert_eq!(Yyid::from(Braced::from(id)), id);
    assert_eq!(id.hyphenated(), Hyphenated::from_yyid(id));
    assert_ne!(id.simple(), Yyid::nil().simple());
    assert_eq!(Braced::default().into_yyid(), Yyid::nil());
}

#[test]
fn borrowed_views_match_owned_ones() {
    let id = Yyid::from_bytes(SAMPLE);
    assert_eq!(id.to_hyphenated_ref().to_string(), id.hyphenated().to_string());
    assert_eq!(id.to_simple_ref().to_string(), id.simple().to_string());
    assert_eq!(id.to_urn_ref().to_string(), id.urn().to_string());
    assert_eq!(HyphenatedRef::from(&id), HyphenatedRef::from_yyid_ref(&id));
    assert_eq!(SimpleRef::from(&id), id.to_simple_ref());
    assert_ne!(UrnRef::from(&id), UrnRef::from_yyid_ref(&Yyid::nil()));
}

#[test]
fn borrowed_views_encode_into_buffer() {
    let id = Yyid::from_bytes(SAMPLE);
    let mut buffer = [b'#'; 46];
    assert_eq!(
        id.to_urn_ref().encode(&mut buffer),
        "urn:yyid:02e7f0f6-067e-8c92-b25c-12c9180540a9"
    );
    assert_eq!(buffer[45], b'#');
    let mut buffer = [b'#'; 36];
    assert_eq!(
        id.to_hyphenated_ref().encode(&mut buffer),
        "02e7f0f6-067e-8c92-b25c-12c9180540a9"
    );
    let mut buffer = [b'#'; 33];
    assert_eq!(id.to_simple_ref().encode(&mut buffer), "02e7f0f6067e8c92b25c12c9180540a9");
    assert_eq!(buffer[32], b'#');
}
