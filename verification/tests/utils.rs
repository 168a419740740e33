use hastebin::codec::{decode_content, encode_content};
use hastebin::error::PasteError;
use hastebin::utils::{
    async_rng_index, async_rng_int, async_rng_int_big, async_rng_item, async_rng_range_int,
    async_rng_range_int_big, decode_uri, generate_name, get_time, parse_response, rng_index_from,
    rng_int_big_from, rng_int_from, timestamp_from, ValueInt, ValueString,
};

const HALF: u64 = 0x8000_0000_0000_0000;

#[test]
fn int_from_draw_is_the_fraction_rounded_toward_zero() {
    assert_eq!(rng_int_big_from(0, 9), 0);
    assert_eq!(rng_int_big_from(HALF, 9), 5);
    assert_eq!(rng_int_big_from(u64::MAX, 9), 9);
    assert_eq!(rng_int_big_from(u64::MAX, 0), 0);
    assert_eq!(rng_int_big_from(u64::MAX, -1), 0);
    assert_eq!(rng_int_big_from(u64::MAX, -2), 0);
    assert_eq!(rng_int_big_from(HALF, -11), -5);
    assert_eq!(rng_int_big_from(u64::MAX, -11), -9);
    assert_eq!(rng_int_big_from(u64::MAX, i64::MAX - 1), i64::MAX - 1);
    assert_eq!(rng_int_big_from(u64::MAX, i64::MIN), -(i64::MAX - 1));
    assert_eq!(rng_int_from(HALF, 9), 5);
    assert_eq!(rng_int_from(u64::MAX, i32::MAX - 1), i32::MAX - 1);
    assert_eq!(rng_int_from(u64::MAX, i32::MIN), -(i32::MAX - 1));
    assert_eq!(rng_int_from(HALF, -11), -5);
}

#[test]
fn index_from_draw_stays_in_the_vector() {
    let items = vec!['b', 'c', 'd', 'f'];
    assert_eq!(rng_index_from(0, &items), 0);
    assert_eq!(rng_index_from(HALF, &items), 2);
    assert_eq!(rng_index_from(u64::MAX, &items), 3);
    assert_eq!(rng_index_from(u64::MAX, &Vec::<u8>::new()), 0);
}

#[test]
fn random_ints_stay_in_their_range() {
    let mut seen = [false; 5];
    for _ in 0..2000 {
        let r = async_rng_range_int_big(3, 7);
        assert!(3 <= r && r <= 7);
        seen[(r - 3) as usize] = true;
        let r = async_rng_range_int(-2, 2);
        assert!(-2 <= r && r <= 2);
        let r = async_rng_int_big(4);
        assert!(0 <= r && r <= 4);
        let r = async_rng_int(0);
        assert_eq!(r, 0);
        let r = async_rng_int(-6);
        assert!(-4 <= r && r <= 0);
        let r = async_rng_range_int_big(10, 4);
        assert!(6 <= r && r <= 10);
    }
    assert_eq!(seen, [true; 5]);
}

#[test]
fn random_ints_differ_from_call_to_call() {
    let first = async_rng_int_big(i64::MAX - 1);
    let mut changed = false;
    for _ in 0..64 {
        changed = changed || async_rng_int_big(i64::MAX - 1) != first;
    }
    assert!(changed);
}

#[test]
fn random_index_and_item_come_from_the_vector() {
    let items = vec![10, 20, 30];
    for _ in 0..200 {
        assert!(async_rng_index(&items) < 3);
        assert!(items.contains(async_rng_item(&items)));
    }
    assert_eq!(async_rng_index(&Vec::<u8>::new()), 0);
    assert_eq!(*async_rng_item(&vec![5]), 5);
}

#[test]
fn generated_names_alternate_vowels_and_consonants() {
    assert_eq!(generate_name(0), "");
    for length in 1..20 {
        let name = generate_name(length);
        let letters: Vec<char> = name.chars().collect();
        assert_eq!(letters.len(), 2 * length);
        for (k, letter) in letters.iter().enumerate() {
            if k % 2 == 0 {
                assert!("ae".contains(*letter));
            } else {
                assert!("bcdf".contains(*letter));
            }
        }
    }
}

#[test]
fn clock_reads_a_time_after_2020() {
    let now = get_time().unwrap();
    assert!(now > 1_577_836_800);
    let later = get_time().unwrap();
    assert!(later >= now);
}

#[test]
fn content_is_stored_as_json_arrays_of_pairs() {
    let content = vec![("a".to_string(), "1".to_string()), ("b".to_string(), "2".to_string())];
    assert_eq!(encode_content(&content), "[[\"a\",\"1\"],[\"b\",\"2\"]]");
    assert_eq!(encode_content(&Vec::new()), "[]");
    assert_eq!(
        encode_content(&vec![("q\"".to_string(), "\n".to_string())]),
        "[[\"q\\\"\",\"\\n\"]]"
    );
}

#[test]
fn stored_content_is_read_back() {
    assert_eq!(
        decode_content(" [ [\"a\", \"1\"], [\"a\", \"\\u0041\"] ] "),
        Ok(vec![("a".to_string(), "1".to_string()), ("a".to_string(), "A".to_string())])
    );
    assert_eq!(decode_content("[]"), Ok(Vec::new()));
}

#[test]
fn unreadable_content_is_reported() {
    assert_eq!(decode_content(""), Err(PasteError::MalformedContent));
    assert_eq!(decode_content("nonsense"), Err(PasteError::MalformedContent));
    assert_eq!(decode_content("[[\"a\"]]"), Err(PasteError::MalformedContent));
    assert_eq!(decode_content("[[\"a\",\"1\",\"2\"]]"), Err(PasteError::MalformedContent));
    assert_eq!(decode_content("[[\"a\",1]]"), Err(PasteError::MalformedContent));
    assert_eq!(decode_content("{\"a\":\"1\"}"), Err(PasteError::MalformedContent));
    assert_eq!(decode_content("[[\"a\",\"1\"]] x"), Err(PasteError::MalformedContent));
}

#[test]
fn reply_holds_the_percent_encoded_text() {
    assert_eq!(
        parse_response(Ok("\"hi there\"".to_string())),
        "{\"type\":\"success\",\"data\":\"%22hi%20there%22\"}"
    );
    assert_eq!(
        parse_response(Err("{\"code\":404}".to_string())),
        "{\"type\":\"fail\",\"error\":\"%7B%22code%22%3A404%7D\"}"
    );
    assert_eq!(
        parse_response(Ok("Az09-._~".to_string())),
        "{\"type\":\"success\",\"data\":\"Az09-._~\"}"
    );
    assert_eq!(
        parse_response(Ok("\u{e9}/\u{1f600}".to_string())),
        "{\"type\":\"success\",\"data\":\"%C3%A9%2F%F0%9F%98%80\"}"
    );
    assert_eq!(parse_response(Err(String::new())), "{\"type\":\"fail\",\"error\":\"\"}");
}

#[test]
fn percent_encoded_text_is_decoded() {
    assert_eq!(decode_uri("hello%20world".to_string()), Some("hello world".to_string()));
    assert_eq!(decode_uri("%22hi%22".to_string()), Some("\"hi\"".to_string()));
    assert_eq!(decode_uri("%C3%A9%c3%a9".to_string()), Some("\u{e9}\u{e9}".to_string()));
    assert_eq!(decode_uri("a+b".to_string()), Some("a+b".to_string()));
    assert_eq!(decode_uri("100%".to_string()), Some("100%".to_string()));
    assert_eq!(decode_uri("%zz".to_string()), Some("%zz".to_string()));
    assert_eq!(decode_uri(String::new()), Some(String::new()));
}

#[test]
fn bytes_that_are_not_text_are_reported() {
    assert_eq!(decode_uri("%ff".to_string()), None);
    assert_eq!(decode_uri("ab%C3".to_string()), None);
}

#[test]
fn column_values_hold_what_they_are_given() {
    assert_eq!(ValueInt(5).0, 5);
    assert_eq!(ValueString("x".to_string()).0, "x");
    assert_eq!(ValueInt(5).clone(), ValueInt(5));
}

#[test]
fn timestamp_is_the_reading_while_it_fits() {
    assert_eq!(timestamp_from(0), Some(0));
    assert_eq!(timestamp_from(1_700_000_000), Some(1_700_000_000));
    assert_eq!(timestamp_from(i64::MAX as u64), Some(i64::MAX));
    assert_eq!(timestamp_from(i64::MAX as u64 + 1), None);
    assert_eq!(timestamp_from(u64::MAX), None);
}
