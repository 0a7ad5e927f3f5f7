use dack::decode::{get_bool_or, get_i64_or, get_opt_text, get_text, get_texts, get_u64_or};
use dack::error::DackError;
use dack::json::{set_field, Json};
use dack::model::stimulus::{Priority, TrustTier};
use dack::paths::{file_name, join_path, parent};
use dack::strmap::StrMap;
use dack::text;

#[test]
fn a_document_reads_back_as_it_was_written() {
    let t = "{\"b\":[1,-2,true,null,\"x\\n\\\"y\\\"\"],\"a\":{\"k\":\"ü\"}}";
    let j = Json::parse(t).unwrap();
    assert_eq!(Json::parse(&j.to_text()).unwrap(), j);
    assert_eq!(j.get("a").unwrap().get_str("k").unwrap(), "ü");
    assert!(Json::parse("{").is_err());
    assert!(Json::parse("").is_err());
}

#[test]
fn a_yaml_document_is_read_as_a_tree() {
    let y = Json::parse_yaml("a: 1\nb: [x, true]\n").unwrap();
    assert_eq!(y, Json::parse("{\"a\":1,\"b\":[\"x\",true]}").unwrap());
    assert!(Json::parse_yaml("a: [").is_err());
}

#[test]
fn trees_are_built_by_calls() {
    let mut fields = vec![("a".to_string(), Json::integer(-3))];
    set_field(&mut fields, "b", Json::texts(&vec!["x".to_string()]));
    set_field(&mut fields, "a", Json::text("y".to_string()));
    let j = Json::object(fields);
    assert_eq!(j, Json::parse("{\"a\":\"y\",\"b\":[\"x\"]}").unwrap());
    assert_eq!(j.clone(), j);
    assert_eq!(Json::integer(i64::MIN).to_text(), "-9223372036854775808");
}

#[test]
fn fields_are_read_by_their_kind() {
    let j = Json::parse("{\"s\":\"x\",\"n\":5,\"b\":true,\"l\":[\"a\"],\"z\":null}").unwrap();
    assert_eq!(get_text(&j, "s", false).unwrap(), "x");
    assert!(get_text(&j, "n", false).is_err());
    assert_eq!(get_text(&j, "n", true).unwrap(), "5");
    assert_eq!(get_opt_text(&j, "z", false).unwrap(), None);
    assert_eq!(get_texts(&j, "l", false).unwrap(), vec!["a"]);
    assert!(get_bool_or(&j, "b", false).unwrap());
    assert_eq!(get_u64_or(&j, "absent", 9).unwrap(), 9);
    assert_eq!(get_i64_or(&j, "n", 0).unwrap(), 5);
    assert!(get_u64_or(&j, "s", 0).is_err());
}

#[test]
fn a_map_keeps_one_value_for_a_key() {
    let mut m: StrMap<String> = StrMap::new();
    m.insert("b".into(), "1".into());
    m.insert("a".into(), "2".into());
    m.insert("b".into(), "3".into());
    assert_eq!(m.len(), 2);
    assert_eq!(m.get("b").map(String::as_str), Some("3"));
    let mut over = StrMap::new();
    over.insert("a".to_string(), "4".to_string());
    let mut both = m.copy();
    both.overlay(&over);
    assert_eq!(both.get("a").map(String::as_str), Some("4"));
    assert_eq!(m.get("a").map(String::as_str), Some("2"));
}

#[test]
fn texts_are_cut_and_joined() {
    assert_eq!(text::trim("  a b \n"), "a b");
    assert_eq!(text::split("a,b,,c", ','), vec!["a", "b", "", "c"]);
    assert_eq!(text::lines("a\r\nb\n"), vec!["a", "b"]);
    assert_eq!(text::replace("aXXbX", "X", "-"), "a--b-");
    assert_eq!(text::join(&vec!["a".to_string(), "b".to_string()], ", "), "a, b");
    assert_eq!(text::split_once("a=b=c", "="), Some(("a".to_string(), "b=c".to_string())));
    assert_eq!(text::strip_prefix("file://x", "file://").as_deref(), Some("x"));
    assert_eq!(text::count_words(" a  b c "), 3);
    assert_eq!(text::to_ascii_lowercase("AbÜ"), "abÜ");
    assert!(text::contains("hello", "ll") && !text::contains("hello", "lo!"));
}

#[test]
fn numbers_are_written_and_read() {
    assert_eq!(text::u64_text(u64::MAX), "18446744073709551615");
    assert_eq!(text::i64_text(i64::MIN), "-9223372036854775808");
    assert_eq!(text::parse_i64("-12"), Some(-12));
    assert_eq!(text::parse_i64("+7"), Some(7));
    assert_eq!(text::parse_i64("9223372036854775808"), None);
    assert_eq!(text::parse_i64(""), None);
    assert_eq!(text::show_span(30_000), "30s");
    assert_eq!(text::show_span(250), "250ms");
    assert_eq!(text::show_span(1_500), "1.5s");
}

#[test]
fn paths_are_joined_and_taken_apart() {
    assert_eq!(join_path("/soul", "memory/x"), "/soul/memory/x");
    assert_eq!(join_path("/soul/", "x"), "/soul/x");
    assert_eq!(join_path("/soul", "/abs"), "/abs");
    assert_eq!(parent("/soul/memory/x"), "/soul/memory");
    assert_eq!(file_name("/soul/memory/x"), "x");
}

#[test]
fn an_error_is_one_line() {
    assert_eq!(DackError::Io("x".into()).text(), "io: x");
    assert_eq!(DackError::Json("x".into()).text(), "json: x");
    assert_eq!(DackError::Yaml("x".into()).text(), "yaml: x");
    assert_eq!(DackError::Config("x".into()).text(), "config: x");
    assert_eq!(DackError::Sensor("x".into()).text(), "sensor: x");
    assert_eq!(DackError::Runtime("x".into()).text(), "runtime: x");
    assert_eq!(DackError::Repo("x".into()).text(), "repo: x");
    assert_eq!(DackError::Identity("x".into()).text(), "identity: x");
    assert_eq!(DackError::Stimulus("x".into()).text(), "stimulus: x");
    assert_eq!(DackError::Queue("x".into()).text(), "queue: x");
    assert_eq!(DackError::Denied("x".into()).text(), "denied by responder: x");
    assert_eq!(DackError::NotImplemented("x".into()).text(), "not implemented (scaffold): x");
}

#[test]
fn tiers_and_priorities_have_names() {
    assert_eq!(TrustTier::operator().name(), "operator_signed");
    assert_eq!(TrustTier::named("self"), TrustTier::self_());
    assert_eq!(TrustTier::named("org").name(), "org");
    assert!(TrustTier::named("public").same(&TrustTier::public()));
    assert_eq!(
        [Priority::Urgent, Priority::High, Priority::Normal, Priority::Low].map(Priority::numeric),
        [0, 10, 20, 30]
    );
}
