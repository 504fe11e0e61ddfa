use back_auth::email::account_key;

#[test]
fn key_lowers_ascii_letters_only() {
    assert_eq!(account_key("A@Example.com"), "a@example.com");
    assert_eq!(account_key("First.Last+Tag@My-Host.CO.uk"), "first.last+tag@my-host.co.uk");
    assert_eq!(account_key("Ünïcode@Host.org"), "Ünïcode@host.org");
    assert_eq!(account_key(""), "");
}
