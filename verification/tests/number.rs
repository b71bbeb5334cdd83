use bmkg_edge::number::{Number, NumberError};

#[test]
fn texts_that_spell_numbers() {
    for s in [
        "0", "1", "-1", "+1", "6.2", "-7.22", ".5", "5.", "1e5", "1E-5", "1.5e+10", "inf", "-INF",
        "Infinity", "nan", "NaN", "007",
    ] {
        let n = Number::parse(s).unwrap();
        assert_eq!(n.as_str(), s);
        assert!(s.parse::<f64>().is_ok(), "{s}");
    }
}

#[test]
fn texts_that_do_not() {
    for s in [
        "", ".", "+", "-", "e5", "1e", "1e+", "--1", "1.2.3", "1,5", " 1", "1 ", "infin", "na", "0x10",
        "1_000", "1f", "+.e1", "٣",
    ] {
        assert!(s.parse::<f64>().is_err(), "{s}");
        let want = if s.is_empty() {
            NumberError::Empty
        } else {
            NumberError::Invalid
        };
        assert_eq!(Number::parse(s), Err(want), "{s}");
    }
}

#[test]
fn errors_read_like_the_standard_ones() {
    assert_eq!(
        NumberError::Empty.message(),
        "".parse::<f64>().unwrap_err().to_string()
    );
    assert_eq!(
        NumberError::Invalid.message(),
        "x".parse::<f64>().unwrap_err().to_string()
    );
}

#[test]
fn short_texts_agree_with_the_standard_library() {
    let letters = ['0', '7', '.', 'e', 'E', '+', '-', ' ', 'i', 'n', 'f', 'a'];
    let mut all = vec![String::new()];
    for _ in 0..4 {
        let mut more = Vec::new();
        for s in &all {
            for c in letters {
                let mut t = s.clone();
                t.push(c);
                more.push(t);
            }
        }
        for s in &more {
            assert_eq!(Number::parse(s).is_ok(), s.parse::<f64>().is_ok(), "{s:?}");
        }
        all = more;
    }
}

#[test]
fn whole_numbers_and_tenths() {
    assert_eq!(Number::whole(500, false).as_str(), "500");
    assert_eq!(Number::whole(7, true).as_str(), "-7");
    assert_eq!(Number::tenths(0).as_str(), "0.0");
    assert_eq!(Number::tenths(1234).as_str(), "123.4");
    for n in [0u64, 1, 9, 10, 15, 99, 1234, 200_160] {
        let x: f64 = Number::tenths(n).as_str().parse().unwrap();
        assert_eq!(x, n as f64 / 10.0);
    }
    assert_eq!(Number::tenths(5).clone().as_str(), "0.5");
}
