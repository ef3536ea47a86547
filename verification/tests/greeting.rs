use corporate_nayose::greeting::greet;

#[test]
fn greet_returns_greeting() {
    assert_eq!(greet(), "Hello, world!");
}
