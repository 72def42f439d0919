use charms_engine::{App, Error, B32, NFT, TOKEN};

fn app(tag: char) -> App {
    App::new(tag, &B32([0x11; 32]), &B32([0x22; 32]))
}

#[test]
fn the_two_kinds_with_rules_of_their_own() {
    assert_eq!(TOKEN, 't');
    assert_eq!(NFT, 'n');
}

#[test]
fn app_fields() {
    let a = App::new(TOKEN, &B32([1; 32]), &B32([2; 32]));
    assert_eq!(a.tag(), 't');
    assert_eq!(a.identity(), B32([1; 32]));
    assert_eq!(a.vk(), B32([2; 32]));
    assert_eq!(a, App { tag: 't', identity: B32([1; 32]), vk: B32([2; 32]) });
}

#[test]
fn apps_differ_when_any_field_differs() {
    let a = app(TOKEN);
    assert_ne!(a, app(NFT));
    assert_ne!(a, App::new(TOKEN, &B32([0x12; 32]), &B32([0x22; 32])));
    assert_ne!(a, App::new(TOKEN, &B32([0x11; 32]), &B32([0x23; 32])));
    assert_ne!(a, App::new(TOKEN, &B32([0x22; 32]), &B32([0x11; 32])));
}

#[test]
fn app_text() {
    assert_eq!(
        app(TOKEN).to_string(),
        format!("t/{}/{}", "11".repeat(32), "22".repeat(32))
    );
    assert_eq!(
        app('/').to_string(),
        format!("//{}/{}", "11".repeat(32), "22".repeat(32))
    );
}

#[test]
fn app_text_round_trip() {
    for tag in [TOKEN, NFT, 'x', '/', '"', '\\', ' ', 'é', '\u{1F600}'] {
        let a = app(tag);
        assert_eq!(App::from_str(&a.to_string()), Ok(a), "{:?}", tag);
    }
}

#[test]
fn app_text_agrees_with_charms_data() {
    let theirs = charms_data::App {
        tag: 'n',
        identity: charms_data::B32([0x11; 32]),
        vk: charms_data::B32([0x22; 32]),
    };
    assert_eq!(app(NFT).to_string(), theirs.to_string());
}

#[test]
fn app_malformed_text() {
    let id = "11".repeat(32);
    let vk = "22".repeat(32);
    for text in [
        String::new(),
        "t".to_string(),
        format!("t/{}", id),
        format!("/{}/{}", id, vk),
        format!("tt/{}/{}", id, vk),
        format!("t/{}/{}/", id, vk),
        format!("t/{}/{}0", id, vk),
        format!("t/{}:{}", id, vk),
        format!("t/{}/{}", &id[1..], vk),
        format!("t/{}/{}", id, "2G".repeat(32)),
        format!("t/{}/{}", "AB".repeat(32), vk),
        format!("t {} {}", id, vk),
    ] {
        assert_eq!(App::from_str(&text), Err(Error::InvalidApp), "{}", text);
    }
}

#[test]
fn apps_are_ordered_by_tag_then_identity_then_key() {
    let low = B32([0x11; 32]);
    let high = B32([0x12; 32]);
    let apps = [
        App::new('n', &low, &low),
        App::new('n', &low, &high),
        App::new('n', &high, &low),
        App::new('t', &low, &low),
        App::new('\u{e9}', &low, &low),
    ];
    for (i, a) in apps.iter().enumerate() {
        for (j, b) in apps.iter().enumerate() {
            assert_eq!(a.partial_cmp(b), Some(i.cmp(&j)));
            assert_eq!(a.partial_cmp(b), Some(a.cmp(b)));
            assert_eq!(a < b, i < j);
        }
    }
}
