use mtproto_satori::settings::{default_bind, default_json_size_limit, default_merge_media_group_receive, MergeMediaGroup};
use mtproto_satori::text::{i64_to_string, parse_i32, parse_i64, parse_u32};

fn chars(s: &str) -> Vec<char> {
    s.chars().collect()
}

#[test]
fn integers_read_like_std() {
    for s in ["0", "-0", "+7", "-9223372036854775808", "9223372036854775807", "007", "", "-", "+", "1a", " 1", "9223372036854775808", "٣"] {
        assert_eq!(parse_i64(&chars(s)), s.parse::<i64>().ok(), "{s}");
        assert_eq!(parse_i32(&chars(s)), s.parse::<i32>().ok(), "{s}");
        assert_eq!(parse_u32(&chars(s)), s.parse::<u32>().ok(), "{s}");
    }
    assert_eq!(parse_i32(&chars("2147483648")), None);
    assert_eq!(parse_u32(&chars("4294967295")), Some(u32::MAX));
}

#[test]
fn integers_written_in_decimal() {
    for n in [0i64, 5, -5, 1234567890, i64::MIN, i64::MAX] {
        assert_eq!(i64_to_string(n), n.to_string());
        assert_eq!(parse_i64(&chars(&i64_to_string(n))), Some(n));
    }
}

#[test]
fn settings_defaults() {
    assert_eq!(default_bind(), "127.0.0.1:5140");
    assert_eq!(default_json_size_limit(), 10 * 1024 * 1024);
    assert_eq!(default_merge_media_group_receive(), 100);
    assert_eq!(MergeMediaGroup::default().receive, 100);
}
