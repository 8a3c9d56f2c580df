use course_dl::protocol::{course_info_form, decimal_digits, resolution_form};

#[test]
fn decimal_of_zero() {
    assert_eq!(decimal_digits(0), b"0".to_vec());
}

#[test]
fn decimal_of_single_digit() {
    assert_eq!(decimal_digits(7), b"7".to_vec());
}

#[test]
fn decimal_of_large_number() {
    assert_eq!(decimal_digits(1700000000123), b"1700000000123".to_vec());
    assert_eq!(decimal_digits(u64::MAX), b"18446744073709551615".to_vec());
}

#[test]
fn course_info_form_fields() {
    let form = course_info_form("SESSIONVALUE", "2001", 1700000000123);
    let expect: Vec<(&[u8], &[u8])> = vec![
        (b"callCount", b"1"),
        (b"scriptSessionId", b"${scriptSessionId}190"),
        (b"httpSessionId", b"SESSIONVALUE"),
        (b"c0-scriptName", b"CourseBean"),
        (b"c0-methodName", b"getLastLearnedMocTermDto"),
        (b"c0-id", b"0"),
        (b"c0-param0", b"number:2001"),
        (b"batchId", b"1700000000123"),
    ];
    assert_eq!(form.len(), expect.len());
    for (got, want) in form.iter().zip(expect.iter()) {
        assert_eq!(got.0.as_slice(), want.0);
        assert_eq!(got.1.as_slice(), want.1);
    }
}

#[test]
fn resolution_form_fields() {
    let form = resolution_form("S", &b"200".to_vec(), &b"100".to_vec(), 5);
    let expect: Vec<(&[u8], &[u8])> = vec![
        (b"callCount", b"1"),
        (b"scriptSessionId", b"${scriptSessionId}190"),
        (b"httpSessionId", b"S"),
        (b"c0-scriptName", b"CourseBean"),
        (b"c0-methodName", b"getLessonUnitLearnVo"),
        (b"c0-id", b"0"),
        (b"c0-param0", b"number:200"),
        (b"c0-param1", b"number:3"),
        (b"c0-param2", b"number:0"),
        (b"c0-param3", b"number:100"),
        (b"batchId", b"5"),
    ];
    assert_eq!(form.len(), expect.len());
    for (got, want) in form.iter().zip(expect.iter()) {
        assert_eq!(got.0.as_slice(), want.0);
        assert_eq!(got.1.as_slice(), want.1);
    }
}
