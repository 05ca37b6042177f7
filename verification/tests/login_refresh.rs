use base64::Engine;
use hoyolab_auto::refresh::{
    cookie_token_in, encrypt, first_cookie_token, login_headers, login_request, random_device_id,
};
use hoyolab_auto::structs::{color_of, embed_color};

#[test]
fn login_headers_in_order() {
    let h = login_headers("dev-1");
    let v: Vec<(&str, &str)> = h.iter().map(|(a, b)| (a.as_str(), b.as_str())).collect();
    assert_eq!(
        v,
        vec![
            ("x-rpc-app_id", "c9oqaq3s3gu8"),
            ("x-rpc-client_type", "4"),
            ("x-rpc-sdk_version", "2.14.1"),
            ("x-rpc-game_biz", "bbs_oversea"),
            ("x-rpc-source", "v2.webLogin"),
            ("x-rpc-referrer", "https://www.hoyolab.com"),
            ("Origin", "https://account.hoyolab.com"),
            ("Referer", "https://account.hoyolab.com/"),
            ("x-rpc-device_id", "dev-1"),
        ]
    );
}

#[test]
fn device_ids_are_v4_uuids() {
    let a = random_device_id();
    let b = random_device_id();
    assert_ne!(a, b);
    for id in [a, b] {
        let c: Vec<char> = id.chars().collect();
        assert_eq!(c.len(), 36);
        for (i, ch) in c.iter().enumerate() {
            if [8, 13, 18, 23].contains(&i) {
                assert_eq!(*ch, '-');
            } else {
                assert!(ch.is_ascii_hexdigit() && !ch.is_ascii_uppercase());
            }
        }
        assert_eq!(c[14], '4');
        assert!(['8', '9', 'a', 'b'].contains(&c[19]));
    }
}

#[test]
fn credentials_encrypt_to_base64_of_a_key_sized_block() {
    let a = encrypt("user@example.com").ok().unwrap();
    let b = encrypt("user@example.com").ok().unwrap();
    assert_eq!(a.len(), 344);
    assert_ne!(a, b);
    let raw = base64::engine::general_purpose::STANDARD.decode(&a).unwrap();
    assert_eq!(raw.len(), 256);
}

#[test]
fn overlong_credential_is_refused() {
    let long = "x".repeat(300);
    assert!(encrypt(&long).is_err());
}

#[test]
fn login_body() {
    let r = login_request("me", "secret").ok().unwrap();
    assert_eq!(r.token_type, 6);
    assert_eq!(r.account.len(), 344);
    assert_eq!(r.password.len(), 344);
    assert!(login_request(&"x".repeat(300), "p").is_err());
}

#[test]
fn token_from_set_cookie() {
    assert_eq!(
        cookie_token_in("cookie_token_v2=v2_ABC.def; Path=/; Domain=.hoyolab.com"),
        Some("v2_ABC.def".to_string())
    );
    assert_eq!(cookie_token_in("ltoken_v2=zzz; Path=/"), None);
    assert_eq!(cookie_token_in("cookie_token_v2=; Path=/"), None);
    assert_eq!(cookie_token_in("x=1; cookie_token_v2=tok"), Some("tok".to_string()));
}

#[test]
fn credential_length_limit_is_key_size_less_eleven() {
    assert_eq!(encrypt(&"a".repeat(245)).ok().unwrap().len(), 344);
    assert!(matches!(
        encrypt(&"a".repeat(246)),
        Err(hoyolab_auto::refresh::CryptoError::Encryption)
    ));
    assert!(matches!(
        login_request("me", &"p".repeat(246)),
        Err(hoyolab_auto::refresh::CryptoError::Encryption)
    ));
}

#[test]
fn token_is_leftmost_match_up_to_semicolon() {
    assert_eq!(
        cookie_token_in("cookie_token_v2=;cookie_token_v2=second;x"),
        Some("second".to_string())
    );
    assert_eq!(cookie_token_in("cookie_token_v2=a b"), Some("a b".to_string()));
    assert_eq!(cookie_token_in("cookie_token_v2"), None);
}

#[test]
fn first_header_with_a_token_wins() {
    let h = |x: &str| Some(x.to_string());
    assert_eq!(
        first_cookie_token(&vec![h("ltoken_v2=a"), h("cookie_token_v2=one"), h("cookie_token_v2=two")]).ok(),
        Some(Some("one".to_string()))
    );
    assert_eq!(first_cookie_token(&vec![h("a=1")]).ok(), Some(None));
    assert!(first_cookie_token(&vec![h("a=1"), None, h("cookie_token_v2=t")]).is_err());
    assert_eq!(
        first_cookie_token(&vec![h("cookie_token_v2=t"), None]).ok(),
        Some(Some("t".to_string()))
    );
}

#[test]
fn colours_are_low_24_bits() {
    assert_eq!(color_of(0xFF12_3456), 0x12_3456);
    assert_eq!(color_of(0), 0);
    assert!(embed_color() <= 0xFFFFFF);
}

#[test]
fn ciphertext_decodes_to_key_size_block_below_modulus() {
    let s = encrypt("hello").ok().unwrap();
    let raw = base64::engine::general_purpose::STANDARD.decode(&s).unwrap();
    assert_eq!(raw.len(), 256);
    assert_eq!(s.len(), 4 * ((256 + 2) / 3));
}
