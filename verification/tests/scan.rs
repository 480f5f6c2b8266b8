use media_type::error::ParserErrorKind;
use media_type::parse::quoted::parse_quoted_string_for;
use media_type::spec::Policy;
use media_type::Value;
use quoted_string::error::CoreError;

const EVERY_POLICY: [Policy; 8] = [
    Policy::Strict,
    Policy::HttpModern,
    Policy::HttpObs,
    Policy::MimeAsciiModern,
    Policy::MimeAsciiObs,
    Policy::MimeInternationalizedModern,
    Policy::MimeInternationalizedObs,
    Policy::Any,
];

#[derive(Clone, Copy, PartialEq)]
enum Place {
    Start,
    Normal,
    Escape,
    HitCr,
    HitNl,
    HadFws,
}

fn qtext(b: u8) -> bool {
    b > 0x20 && b < 0x7f && b != b'"' && b != b'\\'
}

fn ws(b: u8) -> bool {
    b == b' ' || b == b'\t'
}

fn obs_ctl(b: u8) -> bool {
    (b >= 1 && b < 0x20 && b != b'\t' && b != b'\n' && b != b'\r') || b == 0x7f
}

fn mime(policy: Policy) -> Option<(bool, bool)> {
    match policy {
        Policy::MimeAsciiModern => Some((false, false)),
        Policy::MimeAsciiObs => Some((true, false)),
        Policy::MimeInternationalizedModern => Some((false, true)),
        Policy::MimeInternationalizedObs => Some((true, true)),
        _ => None,
    }
}

fn quotable(policy: Policy, b: u8) -> bool {
    match policy {
        Policy::Strict => b == b'"' || b == b'\\',
        Policy::HttpModern | Policy::MimeAsciiModern | Policy::MimeInternationalizedModern => {
            b == b'\t' || (b >= 0x20 && b < 0x7f)
        }
        Policy::HttpObs => b > 0x7f || qtext(b) || ws(b),
        Policy::MimeAsciiObs | Policy::MimeInternationalizedObs => b <= 0x7f,
        Policy::Any => true,
    }
}

fn text(policy: Policy, b: u8) -> bool {
    match policy {
        Policy::Strict | Policy::HttpModern => qtext(b) || ws(b),
        Policy::HttpObs => b > 0x7f || qtext(b) || ws(b),
        Policy::Any => true,
        _ => {
            let (obs, utf8) = mime(policy).unwrap();
            (utf8 && b > 0x7f) || qtext(b) || ws(b) || (obs && obs_ctl(b))
        }
    }
}

fn step(policy: Policy, place: Place, b: u8) -> Result<Option<Place>, CoreError> {
    match place {
        Place::Start => {
            if b == b'"' {
                Ok(Some(Place::Normal))
            } else {
                Err(CoreError::DoesNotStartWithDQuotes)
            }
        }
        Place::Normal => {
            if b == b'"' {
                Ok(None)
            } else if b == b'\\' {
                Ok(Some(Place::Escape))
            } else if text(policy, b) {
                Ok(Some(Place::Normal))
            } else if b == b'\r' && mime(policy).is_some() {
                Ok(Some(Place::HitCr))
            } else {
                Err(CoreError::InvalidChar)
            }
        }
        Place::Escape => {
            if quotable(policy, b) {
                Ok(Some(Place::Normal))
            } else {
                Err(CoreError::UnquoteableCharQuoted)
            }
        }
        Place::HitCr => {
            if b == b'\n' {
                Ok(Some(Place::HitNl))
            } else {
                Err(CoreError::InvalidChar)
            }
        }
        Place::HitNl => {
            let (obs, _) = mime(policy).unwrap();
            if ws(b) {
                Ok(Some(if obs { Place::Normal } else { Place::HadFws }))
            } else {
                Err(CoreError::InvalidChar)
            }
        }
        Place::HadFws => {
            let (_, utf8) = mime(policy).unwrap();
            if (utf8 && b > 0x7f) || qtext(b) || obs_ctl(b) {
                Ok(Some(Place::Normal))
            } else if ws(b) {
                Ok(Some(Place::HadFws))
            } else if b == b'"' {
                Ok(None)
            } else if b == b'\\' {
                Ok(Some(Place::Escape))
            } else {
                Err(CoreError::InvalidChar)
            }
        }
    }
}

fn scan(policy: Policy, input: &str) -> Result<usize, (usize, CoreError)> {
    let mut place = Place::Start;
    for (at, b) in input.bytes().enumerate() {
        match step(policy, place, b) {
            Err(cause) => return Err((at, cause)),
            Ok(None) => return Ok(at + 1),
            Ok(Some(next)) => place = next,
        }
    }
    Err((input.len(), CoreError::DoesNotEndWithDQuotes))
}

fn all_texts(alphabet: &[char], max_len: usize) -> Vec<String> {
    let mut all = vec![String::new()];
    let mut last = vec![String::new()];
    for _ in 0..max_len {
        let mut next = Vec::new();
        for text in &last {
            for c in alphabet {
                let mut longer = text.clone();
                longer.push(*c);
                next.push(longer);
            }
        }
        all.extend(next.iter().cloned());
        last = next;
    }
    all
}

fn check_all(alphabet: &[char], max_len: usize) {
    for input in all_texts(alphabet, max_len) {
        for policy in EVERY_POLICY {
            let found = match parse_quoted_string_for(policy, &input) {
                Ok(len) => Ok(len),
                Err(e) => {
                    assert_eq!(e.input(), input);
                    match e.kind() {
                        ParserErrorKind::QuotedParamValue { pos, cause } => Err((pos, cause)),
                        other => panic!("{:?} on {:?}", other, input),
                    }
                }
            };
            assert_eq!(found, scan(policy, &input), "{:?} {:?}", policy, input);
            if let Ok(len) = found {
                assert!(0 < len && len <= input.len());
                assert_eq!(input.as_bytes()[len - 1], b'"');
                let value = Value::new_unchecked(&input[..len]);
                assert!(value.is_quoted());
                assert!(value.try_to_content().is_some(), "{:?} {:?}", policy, input);
            }
        }
    }
}

#[test]
fn quoted_strings_with_quotes_and_backslashes() {
    check_all(&['"', '\\', 'a', ' ', '\0', '\u{e4}'], 5);
}

#[test]
fn quoted_strings_with_line_folds() {
    check_all(&['"', '\\', 'a', ' ', '\r', '\n', '\u{1}'], 5);
}
