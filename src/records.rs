//! The cached shapes of the platform's entities, and their archives.
//!
//! A cached shape holds the subset of an entity's fields that the cache keeps.
//! Each shape is a [`Record`]: it has a fixed byte layout (see
//! [`crate::codec`]), an encoder, and a validating decoder that accepts
//! exactly the buffers that the layout describes.
use vstd::prelude::*;

use crate::codec::{
    dec_opt_id, dec_opt_text, dec_text, dec_u64, dec_u8, dec_bool, enc_bool, enc_opt_id, enc_opt_text,
    enc_text, enc_u64, enc_u8, lemma_bool_round_trip, lemma_opt_id_round_trip,
    lemma_opt_text_round_trip, lemma_text_round_trip, lemma_u64_round_trip, lemma_u8_round_trip,
    opt_id_ok, opt_text_ok, text_ok, read_bool, read_opt_id, read_opt_text, read_text, read_u64, read_u8, write_bool,
    write_opt_id, write_opt_text, write_text, write_u64, write_u8,
};

verus! {

/// A record type with a byte layout.
pub trait Record: View + Sized {
    /// Values that can be written: optional ids are not the niche.
    spec fn writable(v: Self::V) -> bool;

    /// Values that can be written and read back: writable, and every text
    /// fits its length field (true of every text held in memory).
    spec fn valid(v: Self::V) -> bool;

    /// The bytes of a value.
    spec fn wire(v: Self::V) -> Seq<u8>;

    /// The value that a whole buffer holds, if it is well formed.
    spec fn parse(b: Seq<u8>) -> Option<Self::V>;

    /// Appends the bytes of the record to `out`.
    fn encode_into(&self, out: &mut Vec<u8>)
        requires
            Self::writable(self@),
        ensures
            final(out)@ == old(out)@ + Self::wire(self@),
            Self::valid(self@),
    ;

    fn encode(&self) -> (r: Vec<u8>)
        requires
            Self::writable(self@),
        ensures
            r@ == Self::wire(self@),
            Self::valid(self@),
    ;

    fn decode(b: &[u8]) -> (r: Option<Self>)
        ensures
            match r {
                Some(x) => Self::parse(b@) == Some(x@),
                None => Self::parse(b@) is None,
            },
    ;

    /// Decoding the bytes of a valid value gives the value back.
    proof fn lemma_round_trip(v: Self::V)
        requires
            Self::valid(v),
        ensures
            Self::parse(Self::wire(v)) == Some(v),
    ;
}

pub open spec fn opt_view(x: Option<String>) -> Option<Seq<char>> {
    match x {
        Some(s) => Some(s@),
        None => None,
    }
}

/// A channel as the cache keeps it.
#[derive(Clone, Debug)]
pub struct CachedChannel {
    pub id: u64,
    pub guild_id: Option<u64>,
    pub kind: u8,
    pub name: Option<String>,
}

pub struct ChannelView {
    pub id: u64,
    pub guild_id: Option<u64>,
    pub kind: u8,
    pub name: Option<Seq<char>>,
}

impl View for CachedChannel {
    type V = ChannelView;

    open spec fn view(&self) -> ChannelView {
        ChannelView { id: self.id, guild_id: self.guild_id, kind: self.kind, name: opt_view(self.name) }
    }
}

impl Record for CachedChannel {
    open spec fn writable(v: ChannelView) -> bool {
        opt_id_ok(v.guild_id)
    }

    open spec fn valid(v: ChannelView) -> bool {
        opt_id_ok(v.guild_id) && opt_text_ok(v.name)
    }

    open spec fn wire(v: ChannelView) -> Seq<u8> {
        enc_u64(v.id) + enc_opt_id(v.guild_id) + enc_u8(v.kind) + enc_opt_text(v.name)
    }

    open spec fn parse(b: Seq<u8>) -> Option<ChannelView> {
        match dec_u64(b) {
            Some((id, b1)) => match dec_opt_id(b1) {
                Some((guild_id, b2)) => match dec_u8(b2) {
                    Some((kind, b3)) => match dec_opt_text(b3) {
                        Some((name, b4)) => if b4.len() == 0 {
                            Some(ChannelView { id, guild_id, kind, name })
                        } else {
                            None
                        },
                        None => None,
                    },
                    None => None,
                },
                None => None,
            },
            None => None,
        }
    }

    fn encode_into(&self, out: &mut Vec<u8>) {
        write_u64(out, self.id);
        write_opt_id(out, self.guild_id);
        write_u8(out, self.kind);
        write_opt_text(out, &self.name);
        assert(final(out)@ =~= old(out)@ + Self::wire(self@));
    }

    fn encode(&self) -> (r: Vec<u8>) {
        let mut out = Vec::new();
        self.encode_into(&mut out);
        assert(out@ =~= Self::wire(self@));
        out
    }

    fn decode(b: &[u8]) -> (r: Option<CachedChannel>) {
        let (id, p) = read_u64(b, 0)?;
        let (guild_id, p) = read_opt_id(b, p)?;
        let (kind, p) = read_u8(b, p)?;
        let (name, p) = read_opt_text(b, p)?;
        assert(b@.subrange(0, b@.len() as int) =~= b@);
        if p == b.len() {
            Some(CachedChannel { id, guild_id, kind, name })
        } else {
            None
        }
    }

    proof fn lemma_round_trip(v: ChannelView) {
        let empty = Seq::<u8>::empty();
        let t3 = enc_opt_text(v.name);
        let t2 = enc_u8(v.kind) + t3;
        let t1 = enc_opt_id(v.guild_id) + t2;
        assert(Self::wire(v) =~= enc_u64(v.id) + t1);
        lemma_u64_round_trip(v.id, t1);
        lemma_opt_id_round_trip(v.guild_id, t2);
        lemma_u8_round_trip(v.kind, t3);
        assert(t3 =~= t3 + empty);
        lemma_opt_text_round_trip(v.name, empty);
    }
}

/// A user as the cache keeps it.
#[derive(Clone, Debug)]
pub struct CachedUser {
    pub id: u64,
    pub name: String,
    pub bot: bool,
}

pub struct UserView {
    pub id: u64,
    pub name: Seq<char>,
    pub bot: bool,
}

impl View for CachedUser {
    type V = UserView;

    open spec fn view(&self) -> UserView {
        UserView { id: self.id, name: self.name@, bot: self.bot }
    }
}

impl Record for CachedUser {
    open spec fn writable(v: UserView) -> bool {
        true
    }

    open spec fn valid(v: UserView) -> bool {
        text_ok(v.name)
    }

    open spec fn wire(v: UserView) -> Seq<u8> {
        enc_u64(v.id) + enc_text(v.name) + enc_bool(v.bot)
    }

    open spec fn parse(b: Seq<u8>) -> Option<UserView> {
        match dec_u64(b) {
            Some((id, b1)) => match dec_text(b1) {
                Some((name, b2)) => match dec_bool(b2) {
                    Some((bot, b3)) => if b3.len() == 0 {
                        Some(UserView { id, name, bot })
                    } else {
                        None
                    },
                    None => None,
                },
                None => None,
            },
            None => None,
        }
    }

    fn encode_into(&self, out: &mut Vec<u8>) {
        write_u64(out, self.id);
        write_text(out, &self.name);
        write_bool(out, self.bot);
        assert(final(out)@ =~= old(out)@ + Self::wire(self@));
    }

    fn encode(&self) -> (r: Vec<u8>) {
        let mut out = Vec::new();
        self.encode_into(&mut out);
        assert(out@ =~= Self::wire(self@));
        out
    }

    fn decode(b: &[u8]) -> (r: Option<CachedUser>) {
        let (id, p) = read_u64(b, 0)?;
        let (name, p) = read_text(b, p)?;
        let (bot, p) = read_bool(b, p)?;
        assert(b@.subrange(0, b@.len() as int) =~= b@);
        if p == b.len() {
            Some(CachedUser { id, name, bot })
        } else {
            None
        }
    }

    proof fn lemma_round_trip(v: UserView) {
        let empty = Seq::<u8>::empty();
        let t2 = enc_bool(v.bot);
        let t1 = enc_text(v.name) + t2;
        assert(Self::wire(v) =~= enc_u64(v.id) + t1);
        lemma_u64_round_trip(v.id, t1);
        lemma_text_round_trip(v.name, t2);
        assert(t2 =~= t2 + empty);
        lemma_bool_round_trip(v.bot, empty);
    }
}

/// A guild member as the cache keeps it.
#[derive(Clone, Debug)]
pub struct CachedMember {
    pub guild_id: u64,
    pub user_id: u64,
    pub nick: Option<String>,
}

pub struct MemberView {
    pub guild_id: u64,
    pub user_id: u64,
    pub nick: Option<Seq<char>>,
}

impl View for CachedMember {
    type V = MemberView;

    open spec fn view(&self) -> MemberView {
        MemberView { guild_id: self.guild_id, user_id: self.user_id, nick: opt_view(self.nick) }
    }
}

impl Record for CachedMember {
    open spec fn writable(v: MemberView) -> bool {
        true
    }

    open spec fn valid(v: MemberView) -> bool {
        opt_text_ok(v.nick)
    }

    open spec fn wire(v: MemberView) -> Seq<u8> {
        enc_u64(v.guild_id) + enc_u64(v.user_id) + enc_opt_text(v.nick)
    }

    open spec fn parse(b: Seq<u8>) -> Option<MemberView> {
        match dec_u64(b) {
            Some((guild_id, b1)) => match dec_u64(b1) {
                Some((user_id, b2)) => match dec_opt_text(b2) {
                    Some((nick, b3)) => if b3.len() == 0 {
                        Some(MemberView { guild_id, user_id, nick })
                    } else {
                        None
                    },
                    None => None,
                },
                None => None,
            },
            None => None,
        }
    }

    fn encode_into(&self, out: &mut Vec<u8>) {
        write_u64(out, self.guild_id);
        write_u64(out, self.user_id);
        write_opt_text(out, &self.nick);
        assert(final(out)@ =~= old(out)@ + Self::wire(self@));
    }

    fn encode(&self) -> (r: Vec<u8>) {
        let mut out = Vec::new();
        self.encode_into(&mut out);
        assert(out@ =~= Self::wire(self@));
        out
    }

    fn decode(b: &[u8]) -> (r: Option<CachedMember>) {
        let (guild_id, p) = read_u64(b, 0)?;
        let (user_id, p) = read_u64(b, p)?;
        let (nick, p) = read_opt_text(b, p)?;
        assert(b@.subrange(0, b@.len() as int) =~= b@);
        if p == b.len() {
            Some(CachedMember { guild_id, user_id, nick })
        } else {
            None
        }
    }

    proof fn lemma_round_trip(v: MemberView) {
        let empty = Seq::<u8>::empty();
        let t2 = enc_opt_text(v.nick);
        let t1 = enc_u64(v.user_id) + t2;
        assert(Self::wire(v) =~= enc_u64(v.guild_id) + t1);
        lemma_u64_round_trip(v.guild_id, t1);
        lemma_u64_round_trip(v.user_id, t2);
        assert(t2 =~= t2 + empty);
        lemma_opt_text_round_trip(v.nick, empty);
    }
}

/// A guild role as the cache keeps it.
#[derive(Clone, Debug)]
pub struct CachedRole {
    pub id: u64,
    pub name: String,
    pub permissions: u64,
}

pub struct RoleView {
    pub id: u64,
    pub name: Seq<char>,
    pub permissions: u64,
}

impl View for CachedRole {
    type V = RoleView;

    open spec fn view(&self) -> RoleView {
        RoleView { id: self.id, name: self.name@, permissions: self.permissions }
    }
}

impl Record for CachedRole {
    open spec fn writable(v: RoleView) -> bool {
        true
    }

    open spec fn valid(v: RoleView) -> bool {
        text_ok(v.name)
    }

    open spec fn wire(v: RoleView) -> Seq<u8> {
        enc_u64(v.id) + enc_text(v.name) + enc_u64(v.permissions)
    }

    open spec fn parse(b: Seq<u8>) -> Option<RoleView> {
        match dec_u64(b) {
            Some((id, b1)) => match dec_text(b1) {
                Some((name, b2)) => match dec_u64(b2) {
                    Some((permissions, b3)) => if b3.len() == 0 {
                        Some(RoleView { id, name, permissions })
                    } else {
                        None
                    },
                    None => None,
                },
                None => None,
            },
            None => None,
        }
    }

    fn encode_into(&self, out: &mut Vec<u8>) {
        write_u64(out, self.id);
        write_text(out, &self.name);
        write_u64(out, self.permissions);
        assert(final(out)@ =~= old(out)@ + Self::wire(self@));
    }

    fn encode(&self) -> (r: Vec<u8>) {
        let mut out = Vec::new();
        self.encode_into(&mut out);
        assert(out@ =~= Self::wire(self@));
        out
    }

    fn decode(b: &[u8]) -> (r: Option<CachedRole>) {
        let (id, p) = read_u64(b, 0)?;
        let (name, p) = read_text(b, p)?;
        let (permissions, p) = read_u64(b, p)?;
        assert(b@.subrange(0, b@.len() as int) =~= b@);
        if p == b.len() {
            Some(CachedRole { id, name, permissions })
        } else {
            None
        }
    }

    proof fn lemma_round_trip(v: RoleView) {
        let empty = Seq::<u8>::empty();
        let t2 = enc_u64(v.permissions);
        let t1 = enc_text(v.name) + t2;
        assert(Self::wire(v) =~= enc_u64(v.id) + t1);
        lemma_u64_round_trip(v.id, t1);
        lemma_text_round_trip(v.name, t2);
        assert(t2 =~= t2 + empty);
        lemma_u64_round_trip(v.permissions, empty);
    }
}

/// A guild as the cache keeps it.
#[derive(Clone, Debug)]
pub struct CachedGuild {
    pub id: u64,
    pub name: String,
    pub owner_id: u64,
    pub member_count: u64,
}

pub struct GuildView {
    pub id: u64,
    pub name: Seq<char>,
    pub owner_id: u64,
    pub member_count: u64,
}

impl View for CachedGuild {
    type V = GuildView;

    open spec fn view(&self) -> GuildView {
        GuildView {
            id: self.id,
            name: self.name@,
            owner_id: self.owner_id,
            member_count: self.member_count,
        }
    }
}

impl Record for CachedGuild {
    open spec fn writable(v: GuildView) -> bool {
        true
    }

    open spec fn valid(v: GuildView) -> bool {
        text_ok(v.name)
    }

    open spec fn wire(v: GuildView) -> Seq<u8> {
        enc_u64(v.id) + enc_text(v.name) + enc_u64(v.owner_id) + enc_u64(v.member_count)
    }

    open spec fn parse(b: Seq<u8>) -> Option<GuildView> {
        match dec_u64(b) {
            Some((id, b1)) => match dec_text(b1) {
                Some((name, b2)) => match dec_u64(b2) {
                    Some((owner_id, b3)) => match dec_u64(b3) {
                        Some((member_count, b4)) => if b4.len() == 0 {
                            Some(GuildView { id, name, owner_id, member_count })
                        } else {
                            None
                        },
                        None => None,
                    },
                    None => None,
                },
                None => None,
            },
            None => None,
        }
    }

    fn encode_into(&self, out: &mut Vec<u8>) {
        write_u64(out, self.id);
        write_text(out, &self.name);
        write_u64(out, self.owner_id);
        write_u64(out, self.member_count);
        assert(final(out)@ =~= old(out)@ + Self::wire(self@));
    }

    fn encode(&self) -> (r: Vec<u8>) {
        let mut out = Vec::new();
        self.encode_into(&mut out);
        assert(out@ =~= Self::wire(self@));
        out
    }

    fn decode(b: &[u8]) -> (r: Option<CachedGuild>) {
        let (id, p) = read_u64(b, 0)?;
        let (name, p) = read_text(b, p)?;
        let (owner_id, p) = read_u64(b, p)?;
        let (member_count, p) = read_u64(b, p)?;
        assert(b@.subrange(0, b@.len() as int) =~= b@);
        if p == b.len() {
            Some(CachedGuild { id, name, owner_id, member_count })
        } else {
            None
        }
    }

    proof fn lemma_round_trip(v: GuildView) {
        let empty = Seq::<u8>::empty();
        let t3 = enc_u64(v.member_count);
        let t2 = enc_u64(v.owner_id) + t3;
        let t1 = enc_text(v.name) + t2;
        assert(Self::wire(v) =~= enc_u64(v.id) + t1);
        lemma_u64_round_trip(v.id, t1);
        lemma_text_round_trip(v.name, t2);
        lemma_u64_round_trip(v.owner_id, t3);
        assert(t3 =~= t3 + empty);
        lemma_u64_round_trip(v.member_count, empty);
    }
}

/// A live stream as the cache keeps it. The user id is never zero.
#[derive(Clone, Debug)]
pub struct CachedStream {
    pub user_id: u64,
    pub live: bool,
    pub title: String,
}

pub struct StreamView {
    pub user_id: u64,
    pub live: bool,
    pub title: Seq<char>,
}

impl View for CachedStream {
    type V = StreamView;

    open spec fn view(&self) -> StreamView {
        StreamView { user_id: self.user_id, live: self.live, title: self.title@ }
    }
}

impl Record for CachedStream {
    open spec fn writable(v: StreamView) -> bool {
        v.user_id != 0
    }

    open spec fn valid(v: StreamView) -> bool {
        v.user_id != 0 && text_ok(v.title)
    }

    open spec fn wire(v: StreamView) -> Seq<u8> {
        enc_u64(v.user_id) + enc_bool(v.live) + enc_text(v.title)
    }

    open spec fn parse(b: Seq<u8>) -> Option<StreamView> {
        match dec_u64(b) {
            Some((user_id, b1)) => match dec_bool(b1) {
                Some((live, b2)) => match dec_text(b2) {
                    Some((title, b3)) => if b3.len() == 0 && user_id != 0 {
                        Some(StreamView { user_id, live, title })
                    } else {
                        None
                    },
                    None => None,
                },
                None => None,
            },
            None => None,
        }
    }

    fn encode_into(&self, out: &mut Vec<u8>) {
        write_u64(out, self.user_id);
        write_bool(out, self.live);
        write_text(out, &self.title);
        assert(final(out)@ =~= old(out)@ + Self::wire(self@));
    }

    fn encode(&self) -> (r: Vec<u8>) {
        let mut out = Vec::new();
        self.encode_into(&mut out);
        assert(out@ =~= Self::wire(self@));
        out
    }

    fn decode(b: &[u8]) -> (r: Option<CachedStream>) {
        let (user_id, p) = read_u64(b, 0)?;
        let (live, p) = read_bool(b, p)?;
        let (title, p) = read_text(b, p)?;
        assert(b@.subrange(0, b@.len() as int) =~= b@);
        if p == b.len() && user_id != 0 {
            Some(CachedStream { user_id, live, title })
        } else {
            None
        }
    }

    proof fn lemma_round_trip(v: StreamView) {
        let empty = Seq::<u8>::empty();
        let t2 = enc_text(v.title);
        let t1 = enc_bool(v.live) + t2;
        assert(Self::wire(v) =~= enc_u64(v.user_id) + t1);
        lemma_u64_round_trip(v.user_id, t1);
        lemma_bool_round_trip(v.live, t2);
        assert(t2 =~= t2 + empty);
        lemma_text_round_trip(v.title, empty);
    }
}

/// A stream that may be absent ("not live"), written without a tag: an
/// absent stream is a zero user id alone, the niche that no stream uses.
pub struct NichedStream {
    pub stream: Option<CachedStream>,
}

impl View for NichedStream {
    type V = Option<StreamView>;

    open spec fn view(&self) -> Option<StreamView> {
        match self.stream {
            Some(s) => Some(s@),
            None => None,
        }
    }
}

impl Record for NichedStream {
    open spec fn writable(v: Option<StreamView>) -> bool {
        match v {
            Some(s) => CachedStream::writable(s),
            None => true,
        }
    }

    open spec fn valid(v: Option<StreamView>) -> bool {
        match v {
            Some(s) => CachedStream::valid(s),
            None => true,
        }
    }

    open spec fn wire(v: Option<StreamView>) -> Seq<u8> {
        match v {
            Some(s) => CachedStream::wire(s),
            None => enc_u64(0),
        }
    }

    open spec fn parse(b: Seq<u8>) -> Option<Option<StreamView>> {
        match dec_u64(b) {
            Some((0, rest)) => if rest.len() == 0 {
                Some(None)
            } else {
                None
            },
            Some(_) => match CachedStream::parse(b) {
                Some(s) => Some(Some(s)),
                None => None,
            },
            None => None,
        }
    }

    fn encode_into(&self, out: &mut Vec<u8>) {
        match &self.stream {
            Some(s) => s.encode_into(out),
            None => write_u64(out, 0),
        }
    }

    fn encode(&self) -> (r: Vec<u8>) {
        let mut out = Vec::new();
        self.encode_into(&mut out);
        assert(out@ =~= Self::wire(self@));
        out
    }

    fn decode(b: &[u8]) -> (r: Option<NichedStream>) {
        let (user_id, p) = read_u64(b, 0)?;
        assert(b@.subrange(0, b@.len() as int) =~= b@);
        if user_id == 0 {
            if p == b.len() {
                Some(NichedStream { stream: None })
            } else {
                None
            }
        } else {
            match CachedStream::decode(b) {
                Some(s) => Some(NichedStream { stream: Some(s) }),
                None => None,
            }
        }
    }

    proof fn lemma_round_trip(v: Option<StreamView>) {
        match v {
            Some(s) => {
                CachedStream::lemma_round_trip(s);
                let t1 = enc_bool(s.live) + enc_text(s.title);
                assert(CachedStream::wire(s) =~= enc_u64(s.user_id) + t1);
                lemma_u64_round_trip(s.user_id, t1);
            },
            None => {
                let empty = Seq::<u8>::empty();
                assert(enc_u64(0) =~= enc_u64(0) + empty);
                lemma_u64_round_trip(0, empty);
            },
        }
    }
}

/// Why a buffer was not accepted as an archive of a record type.
#[derive(Clone, Copy, Debug, PartialEq, Eq, Structural)]
pub enum ValidationError {
    /// The bytes do not follow the record's layout.
    Malformed,
}

/// A buffer that holds a well-formed record, with the record it holds.
pub struct CachedArchive<T> {
    bytes: Vec<u8>,
    value: T,
}

impl<T: Record> CachedArchive<T> {
    pub closed spec fn bytes_view(&self) -> Seq<u8> {
        self.bytes@
    }

    pub closed spec fn value_view(&self) -> T::V {
        self.value@
    }

    /// The bytes hold the record.
    pub closed spec fn wf(&self) -> bool {
        T::parse(self.bytes@) == Some(self.value@)
    }

    /// Checks `bytes` against the layout of `T` and keeps them with the
    /// record they hold.
    pub fn open(bytes: Vec<u8>) -> (r: Result<CachedArchive<T>, ValidationError>)
        ensures
            match r {
                Ok(a) => a.bytes_view() == bytes@ && T::parse(bytes@) == Some(a.value_view()) && a.wf(),
                Err(_) => T::parse(bytes@) is None,
            },
    {
        match T::decode(bytes.as_slice()) {
            Some(value) => Ok(CachedArchive { bytes, value }),
            None => Err(ValidationError::Malformed),
        }
    }

    /// An archive of `value` from its own bytes.
    pub fn from_parts(bytes: Vec<u8>, value: T) -> (r: CachedArchive<T>)
        requires
            bytes@ == T::wire(value@),
            T::parse(bytes@) == Some(value@),
        ensures
            r.bytes_view() == bytes@,
            r.value_view() == value@,
            r.wf(),
    {
        CachedArchive { bytes, value }
    }

    /// The bytes as they were stored.
    pub fn as_bytes(&self) -> (r: &[u8])
        ensures
            r@ == self.bytes_view(),
    {
        self.bytes.as_slice()
    }

    /// The record that the bytes hold.
    pub fn value(&self) -> (r: &T)
        ensures
            r@ == self.value_view(),
    {
        &self.value
    }
}

impl CachedArchive<NichedStream> {
    /// Reads the archive of a stream that may be absent as the archive of a
    /// present stream, over the same bytes; an error where it is absent.
    pub fn try_cast(self) -> (r: Result<CachedArchive<CachedStream>, ValidationError>)
        requires
            self.wf(),
        ensures
            match r {
                Ok(a) => a.bytes_view() == self.bytes_view() && self.value_view() == Some(
                    a.value_view(),
                ) && a.wf(),
                Err(_) => self.value_view() is None,
            },
    {
        match self.value.stream {
            Some(s) => Ok(CachedArchive { bytes: self.bytes, value: s }),
            None => Err(ValidationError::Malformed),
        }
    }
}

/// Encodes a record into a fresh archive buffer.
pub fn encode<T: Record>(v: &T) -> (r: Vec<u8>)
    requires
        T::writable(v@),
    ensures
        r@ == T::wire(v@),
        T::parse(r@) == Some(v@),
{
    let r = v.encode();
    proof { T::lemma_round_trip(v@); }
    r
}

/// Opening the bytes of a record gives an archive that holds the same bytes
/// and a record equal, field by field, to the one that was encoded.
pub proof fn lemma_open_encoded<T: Record>(v: T::V)
    requires
        T::valid(v),
    ensures
        T::parse(T::wire(v)) == Some(v),
{
    T::lemma_round_trip(v);
}

} // verus!
