use bathbot_cache::records::{
    encode, CachedArchive, CachedChannel, CachedGuild, CachedMember, CachedRole, CachedUser,
    Record, ValidationError,
};

#[test]
fn channel_round_trip() {
    let c = CachedChannel { id: 42, guild_id: Some(7), kind: 2, name: Some("général".to_string()) };
    let bytes = encode(&c);
    let archive = CachedArchive::<CachedChannel>::open(bytes.clone()).unwrap();
    assert_eq!(archive.as_bytes(), bytes.as_slice());
    let v = archive.value();
    assert_eq!(v.id, 42);
    assert_eq!(v.guild_id, Some(7));
    assert_eq!(v.kind, 2);
    assert_eq!(v.name.as_deref(), Some("général"));
}

#[test]
fn absent_guild_uses_the_zero_niche() {
    let c = CachedChannel { id: 1, guild_id: None, kind: 0, name: None };
    let bytes = c.encode();
    assert_eq!(bytes.len(), 8 + 8 + 1 + 1);
    assert_eq!(&bytes[8..16], &[0u8; 8]);
    assert_eq!(CachedChannel::decode(&bytes).unwrap().guild_id, None);
}

#[test]
fn integers_are_little_endian() {
    let u = CachedUser { id: 0x0102, name: String::new(), bot: true };
    let bytes = u.encode();
    assert_eq!(&bytes[0..8], &[2, 1, 0, 0, 0, 0, 0, 0]);
    assert_eq!(*bytes.last().unwrap(), 1);
}

#[test]
fn other_records_round_trip() {
    let u = CachedUser { id: 9, name: "peppy".to_string(), bot: false };
    let back = CachedArchive::<CachedUser>::open(encode(&u)).unwrap();
    assert_eq!(back.value().name, "peppy");
    assert!(!back.value().bot);

    let m = CachedMember { guild_id: 3, user_id: 9, nick: Some("pp".to_string()) };
    let back = CachedMember::decode(&encode(&m)).unwrap();
    assert_eq!((back.guild_id, back.user_id, back.nick.as_deref()), (3, 9, Some("pp")));

    let r = CachedRole { id: 5, name: "admin".to_string(), permissions: u64::MAX };
    let back = CachedRole::decode(&encode(&r)).unwrap();
    assert_eq!((back.id, back.name.as_str(), back.permissions), (5, "admin", u64::MAX));

    let g = CachedGuild { id: 100, name: "osu!".to_string(), owner_id: 2, member_count: 1000 };
    let back = CachedGuild::decode(&encode(&g)).unwrap();
    assert_eq!((back.id, back.name.as_str(), back.owner_id, back.member_count), (100, "osu!", 2, 1000));
}

#[test]
fn malformed_bytes_are_rejected() {
    let u = CachedUser { id: 9, name: "peppy".to_string(), bot: false };
    let mut bytes = encode(&u);
    bytes.push(0);
    assert!(matches!(CachedArchive::<CachedUser>::open(bytes), Err(ValidationError::Malformed)));
    let mut bytes = encode(&u);
    bytes.truncate(10);
    assert!(CachedUser::decode(&bytes).is_none());
    let mut bytes = encode(&u);
    *bytes.last_mut().unwrap() = 2;
    assert!(CachedUser::decode(&bytes).is_none());
    // a length that runs past the end
    let mut bytes = encode(&u);
    bytes[8] = 200;
    assert!(CachedUser::decode(&bytes).is_none());
    // bytes that are not UTF-8
    let mut bytes = encode(&u);
    bytes[16] = 0xff;
    assert!(CachedUser::decode(&bytes).is_none());
}
