use authware::store::encryptor::MagicEncryptor;
use authware::Encryptor;

#[test]
fn test_encrypt() {
    let cases: [(&str, &str, &str); 3] = [
        ("", "", "DgXh9i/pIea5iXvXZg15dw=="),
        ("olia", "", "LVX/HEA5MsQR0J9NZSNLLA=="),
        ("olia", "aaaaaa", "gkYxNAn3tL5JcgE4O8x7Zg=="),
    ];
    for (input, key_suffix, expected) in cases {
        let key = "1234567890123456".to_string() + key_suffix;
        let encryptor = MagicEncryptor::new(&key).unwrap();
        let actual = encryptor.encrypt(input);
        assert_eq!(expected, actual);
    }
}

#[test]
fn test_decrypt() {
    let cases: [(&str, &str, &str); 3] = [
        ("DgXh9i/pIea5iXvXZg15dw==", "", ""),
        ("LVX/HEA5MsQR0J9NZSNLLA==", "", "olia"),
        ("gkYxNAn3tL5JcgE4O8x7Zg==", "aaaaaa", "olia"),
    ];
    for (input, key_suffix, expected) in cases {
        let key = "1234567890123456".to_string() + key_suffix;
        let encryptor = MagicEncryptor::new(&key).unwrap();
        let actual = encryptor.decrypt(input).unwrap();
        assert_eq!(expected, actual);
    }
}

#[test]
fn test_short_key_rejected() {
    assert!(MagicEncryptor::new("123456789012345").is_err());
    assert!(MagicEncryptor::new("1234567890123456").is_ok());
}

#[test]
fn test_round_trip() {
    let encryptor = MagicEncryptor::new("0123456789abcdef").unwrap();
    for payload in ["", "x", "hello world", "žąsis üß 漢字", "{\"user\":\"admin\"}"] {
        let cipher = encryptor.encrypt(payload);
        assert_ne!(cipher, payload);
        assert_eq!(encryptor.decrypt(&cipher).unwrap(), payload);
    }
}

#[test]
fn test_decrypt_rejects_garbage() {
    let encryptor = MagicEncryptor::new("0123456789abcdef").unwrap();
    assert!(encryptor.decrypt("not base64 at all!").is_err());
}
