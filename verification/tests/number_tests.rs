use reniced::number::{parse_i32, parse_u8, NumberError};

fn chars(s: &str) -> Vec<char> {
    s.chars().collect()
}

fn i32_of(s: &str) -> Result<i32, NumberError> {
    let v = chars(s);
    parse_i32(&v, 0, v.len())
}

fn u8_of(s: &str) -> Result<u8, NumberError> {
    let v = chars(s);
    parse_u8(&v, 0, v.len())
}

#[test]
fn reads_like_std_parse() {
    for s in ["0", "-0", "+7", "-2147483648", "2147483647", "2147483648", "-2147483649", "", "-", "+", "12a", "a12", "99999999999999", "-9a"] {
        let ours = i32_of(s);
        let std = s.parse::<i32>();
        match (ours, std) {
            (Ok(a), Ok(b)) => assert_eq!(a, b, "{:?}", s),
            (Err(_), Err(_)) => {}
            other => panic!("{:?}: {:?}", s, other),
        }
    }
    for s in ["0", "255", "256", "-1", "+3", "007"] {
        assert_eq!(u8_of(s).ok(), s.parse::<u8>().ok(), "{:?}", s);
    }
}

#[test]
fn error_kinds() {
    assert_eq!(i32_of(""), Err(NumberError::Empty));
    assert_eq!(i32_of("-"), Err(NumberError::InvalidDigit));
    assert_eq!(i32_of("12a"), Err(NumberError::InvalidDigit));
    assert_eq!(i32_of("2147483648"), Err(NumberError::PosOverflow));
    assert_eq!(i32_of("-2147483649"), Err(NumberError::NegOverflow));
    assert_eq!(u8_of("-1"), Err(NumberError::InvalidDigit));
    assert_eq!(u8_of("256"), Err(NumberError::PosOverflow));
    // The first problem met left to right decides.
    assert_eq!(i32_of("99999999999x"), Err(NumberError::PosOverflow));
    assert_eq!(i32_of("9x99999999999"), Err(NumberError::InvalidDigit));
    assert_eq!(NumberError::PosOverflow.message(), "number too large to fit in target type");
}
