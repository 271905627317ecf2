//! The wire format of the commands exchanged between clients and the server.
//!
//! A command is a one-byte tag followed by its payload. Integers are
//! little-endian; a string is a 4-byte byte count followed by its UTF-8 bytes;
//! a list of strings is a 4-byte count followed by the strings; a boolean is a
//! single byte, 0 or 1.
use crate::common::text::string_from_utf8;
use vstd::prelude::*;
use vstd::utf8::*;

verus! {

broadcast use vstd::seq::group_seq_axioms;

pub const ID_ABORT: u8 = 1;

pub const ID_SET_STATUS_OK: u8 = 2;

pub const ID_SET_STATUS_ERROR: u8 = 3;

pub const ID_GET_STATUSES: u8 = 4;

pub const ID_REFRESH_CLIENT_BY_NAME: u8 = 5;

pub const ID_SET_NAME: u8 = 6;

pub const ID_STATUSES: u8 = 7;

pub const ID_REFRESH: u8 = 8;

pub const ID_REFRESH_ALL_CLIENTS: u8 = 9;

pub const ID_LIST_CLIENTS: u8 = 10;

pub const ID_CLIENTS: u8 = 11;

/// A command sent between a client and the server.
#[derive(Debug, PartialEq, Eq, Clone)]
pub enum ServerCommand {
    Abort,
    SetStatusOk,
    SetStatusError(String),
    GetStatuses(bool),
    RefreshClientByName(String),
    SetName(String),
    Statuses(Vec<String>),
    Refresh,
    RefreshAllClients,
    ListClients,
    Clients(Vec<String>),
}

/// Why a byte buffer could not be read as a command.
#[derive(Debug, PartialEq, Eq, Clone, Copy, Structural)]
pub enum ServerCommandError {
    /// The buffer ends before the command does.
    TooFewBytes,
    /// A string payload is not valid UTF-8.
    InvalidStringEncoding,
    /// A boolean byte is neither 0 nor 1.
    InvalidBoolean,
    /// The tag byte names no command.
    UnknownCommand,
}

/// A decoded command and the number of bytes it took.
#[derive(Debug)]
pub struct ServerCommandParse {
    pub command: ServerCommand,
    pub bytes_used: usize,
}

/// A command as a mathematical value: strings are character sequences.
pub enum CommandView {
    Abort,
    SetStatusOk,
    SetStatusError(Seq<char>),
    GetStatuses(bool),
    RefreshClientByName(Seq<char>),
    SetName(Seq<char>),
    Statuses(Seq<Seq<char>>),
    Refresh,
    RefreshAllClients,
    ListClients,
    Clients(Seq<Seq<char>>),
}

pub open spec fn strings_view(v: Seq<String>) -> Seq<Seq<char>> {
    v.map_values(|s: String| s@)
}

impl View for ServerCommand {
    type V = CommandView;

    open spec fn view(&self) -> CommandView {
        match self {
            ServerCommand::Abort => CommandView::Abort,
            ServerCommand::SetStatusOk => CommandView::SetStatusOk,
            ServerCommand::SetStatusError(m) => CommandView::SetStatusError(m@),
            ServerCommand::GetStatuses(b) => CommandView::GetStatuses(*b),
            ServerCommand::RefreshClientByName(n) => CommandView::RefreshClientByName(n@),
            ServerCommand::SetName(n) => CommandView::SetName(n@),
            ServerCommand::Statuses(v) => CommandView::Statuses(strings_view(v@)),
            ServerCommand::Refresh => CommandView::Refresh,
            ServerCommand::RefreshAllClients => CommandView::RefreshAllClients,
            ServerCommand::ListClients => CommandView::ListClients,
            ServerCommand::Clients(v) => CommandView::Clients(strings_view(v@)),
        }
    }
}

// ---------------------------------------------------------------------------
// Encoding
// ---------------------------------------------------------------------------
/// The four little-endian bytes of `n`, keeping only its low 32 bits.
pub open spec fn le32(n: nat) -> Seq<u8> {
    seq![
        (n % 256) as u8,
        ((n / 256) % 256) as u8,
        ((n / 65536) % 256) as u8,
        ((n / 16777216) % 256) as u8,
    ]
}

/// A string on the wire: its UTF-8 byte count, then its bytes.
pub open spec fn encode_string(s: Seq<char>) -> Seq<u8> {
    le32(encode_utf8(s).len()) + encode_utf8(s)
}

/// The strings of `v`, each encoded, one after the other.
pub open spec fn encode_string_items(v: Seq<Seq<char>>) -> Seq<u8>
    decreases v.len(),
{
    if v.len() == 0 {
        Seq::empty()
    } else {
        encode_string_items(v.drop_last()) + encode_string(v.last())
    }
}

/// A list of strings on the wire: its count, then the strings.
pub open spec fn encode_strings(v: Seq<Seq<char>>) -> Seq<u8> {
    le32(v.len()) + encode_string_items(v)
}

/// The bytes of a command.
pub open spec fn encode(c: CommandView) -> Seq<u8> {
    match c {
        CommandView::Abort => seq![ID_ABORT],
        CommandView::SetStatusOk => seq![ID_SET_STATUS_OK],
        CommandView::SetStatusError(m) => seq![ID_SET_STATUS_ERROR] + encode_string(m),
        CommandView::GetStatuses(b) => seq![ID_GET_STATUSES, if b { 1u8 } else { 0u8 }],
        CommandView::RefreshClientByName(n) => seq![ID_REFRESH_CLIENT_BY_NAME] + encode_string(n),
        CommandView::SetName(n) => seq![ID_SET_NAME] + encode_string(n),
        CommandView::Statuses(v) => seq![ID_STATUSES] + encode_strings(v),
        CommandView::Refresh => seq![ID_REFRESH],
        CommandView::RefreshAllClients => seq![ID_REFRESH_ALL_CLIENTS],
        CommandView::ListClients => seq![ID_LIST_CLIENTS],
        CommandView::Clients(v) => seq![ID_CLIENTS] + encode_strings(v),
    }
}

// ---------------------------------------------------------------------------
// Decoding
// ---------------------------------------------------------------------------
/// The little-endian 32-bit number stored at `at`.
pub open spec fn read_le32(b: Seq<u8>, at: int) -> nat {
    (b[at] as nat) + (b[at + 1] as nat) * 256 + (b[at + 2] as nat) * 65536 + (b[at + 3] as nat)
        * 16777216
}

/// Reads a string at `at`; on success also gives the position after it.
pub open spec fn read_string(b: Seq<u8>, at: int) -> Result<(Seq<char>, int), ServerCommandError> {
    if at + 4 > b.len() {
        Err(ServerCommandError::TooFewBytes)
    } else if at + 4 + read_le32(b, at) > b.len() {
        Err(ServerCommandError::TooFewBytes)
    } else {
        let end = at + 4 + read_le32(b, at);
        let payload = b.subrange(at + 4, end);
        if valid_utf8(payload) {
            Ok((decode_utf8(payload), end))
        } else {
            Err(ServerCommandError::InvalidStringEncoding)
        }
    }
}

/// Reads `k` strings one after the other, starting at `at`.
pub open spec fn read_string_items(b: Seq<u8>, at: int, k: nat) -> Result<
    (Seq<Seq<char>>, int),
    ServerCommandError,
>
    decreases k,
{
    if k == 0 {
        Ok((Seq::empty(), at))
    } else {
        match read_string_items(b, at, (k - 1) as nat) {
            Ok((v, pos)) => match read_string(b, pos) {
                Ok((s, end)) => Ok((v.push(s), end)),
                Err(e) => Err(e),
            },
            Err(e) => Err(e),
        }
    }
}

/// Reads a counted list of strings at `at`.
pub open spec fn read_strings(b: Seq<u8>, at: int) -> Result<
    (Seq<Seq<char>>, int),
    ServerCommandError,
> {
    if at + 4 > b.len() {
        Err(ServerCommandError::TooFewBytes)
    } else {
        read_string_items(b, at + 4, read_le32(b, at))
    }
}

/// Applies `f` to the value read, keeping the end position or the error.
pub open spec fn map_read<T>(
    r: Result<(T, int), ServerCommandError>,
    f: spec_fn(T) -> CommandView,
) -> Result<(CommandView, int), ServerCommandError> {
    match r {
        Ok((x, end)) => Ok((f(x), end)),
        Err(e) => Err(e),
    }
}

/// The command at the start of `b` and the number of bytes it takes.
pub open spec fn parse(b: Seq<u8>) -> Result<(CommandView, int), ServerCommandError> {
    if b.len() == 0 {
        Err(ServerCommandError::TooFewBytes)
    } else if b[0] == ID_ABORT {
        Ok((CommandView::Abort, 1))
    } else if b[0] == ID_SET_STATUS_OK {
        Ok((CommandView::SetStatusOk, 1))
    } else if b[0] == ID_SET_STATUS_ERROR {
        map_read(read_string(b, 1), |s: Seq<char>| CommandView::SetStatusError(s))
    } else if b[0] == ID_GET_STATUSES {
        if b.len() < 2 {
            Err(ServerCommandError::TooFewBytes)
        } else if b[1] == 0 {
            Ok((CommandView::GetStatuses(false), 2))
        } else if b[1] == 1 {
            Ok((CommandView::GetStatuses(true), 2))
        } else {
            Err(ServerCommandError::InvalidBoolean)
        }
    } else if b[0] == ID_REFRESH_CLIENT_BY_NAME {
        map_read(read_string(b, 1), |s: Seq<char>| CommandView::RefreshClientByName(s))
    } else if b[0] == ID_SET_NAME {
        map_read(read_string(b, 1), |s: Seq<char>| CommandView::SetName(s))
    } else if b[0] == ID_STATUSES {
        map_read(read_strings(b, 1), |v: Seq<Seq<char>>| CommandView::Statuses(v))
    } else if b[0] == ID_REFRESH {
        Ok((CommandView::Refresh, 1))
    } else if b[0] == ID_REFRESH_ALL_CLIENTS {
        Ok((CommandView::RefreshAllClients, 1))
    } else if b[0] == ID_LIST_CLIENTS {
        Ok((CommandView::ListClients, 1))
    } else if b[0] == ID_CLIENTS {
        map_read(read_strings(b, 1), |v: Seq<Seq<char>>| CommandView::Clients(v))
    } else {
        Err(ServerCommandError::UnknownCommand)
    }
}

// ---------------------------------------------------------------------------
// Executable encoding
// ---------------------------------------------------------------------------
fn append_u32_le(bytes: &mut Vec<u8>, n: usize)
    ensures
        final(bytes)@ == old(bytes)@ + le32(n as nat),
{
    let v: u64 = n as u64;
    bytes.push((v % 256) as u8);
    bytes.push(((v / 256) % 256) as u8);
    bytes.push(((v / 65536) % 256) as u8);
    bytes.push(((v / 16777216) % 256) as u8);
    assert(final(bytes)@ =~= old(bytes)@ + le32(n as nat));
}

fn append_string(bytes: &mut Vec<u8>, s: &String)
    ensures
        final(bytes)@ == old(bytes)@ + encode_string(s@),
{
    let sb = s.as_str().as_bytes();
    append_u32_le(bytes, sb.len());
    let ghost start = bytes@;
    let mut i: usize = 0;
    while i < sb.len()
        invariant
            i <= sb@.len(),
            sb@ == encode_utf8(s@),
            bytes@ == start + sb@.subrange(0, i as int),
            start == old(bytes)@ + le32(sb@.len()),
        decreases sb@.len() - i,
    {
        bytes.push(sb[i]);
        i = i + 1;
        assert(bytes@ =~= start + sb@.subrange(0, i as int));
    }
    assert(sb@.subrange(0, sb@.len() as int) =~= sb@);
}

fn append_strings(bytes: &mut Vec<u8>, strings: &Vec<String>)
    ensures
        final(bytes)@ == old(bytes)@ + encode_strings(strings_view(strings@)),
{
    append_u32_le(bytes, strings.len());
    let ghost start = bytes@;
    let ghost all = strings_view(strings@);
    let mut i: usize = 0;
    while i < strings.len()
        invariant
            i <= strings@.len(),
            all == strings_view(strings@),
            start == old(bytes)@ + le32(strings@.len() as nat),
            bytes@ == start + encode_string_items(all.subrange(0, i as int)),
        decreases strings@.len() - i,
    {
        append_string(bytes, &strings[i]);
        proof {
            let next = all.subrange(0, i + 1);
            assert(next.drop_last() =~= all.subrange(0, i as int));
            assert(next.last() == strings[i as int]@);
        }
        i = i + 1;
        assert(bytes@ =~= start + encode_string_items(all.subrange(0, i as int)));
    }
    assert(all.subrange(0, all.len() as int) =~= all);
}

impl ServerCommand {
    /// The bytes that carry this command on the wire.
    pub fn to_bytes(&self) -> (r: Vec<u8>)
        ensures
            r@ == encode(self@),
    {
        match self {
            ServerCommand::Abort => {
                let r = vec![ID_ABORT];
                assert(r@ =~= encode(self@));
                r
            },
            ServerCommand::SetStatusOk => {
                let r = vec![ID_SET_STATUS_OK];
                assert(r@ =~= encode(self@));
                r
            },
            ServerCommand::SetStatusError(message) => {
                let mut r = vec![ID_SET_STATUS_ERROR];
                append_string(&mut r, message);
                r
            },
            ServerCommand::GetStatuses(include_names) => {
                let mut r = vec![ID_GET_STATUSES];
                r.push(if *include_names { 1u8 } else { 0u8 });
                assert(r@ =~= encode(self@));
                r
            },
            ServerCommand::RefreshClientByName(name) => {
                let mut r = vec![ID_REFRESH_CLIENT_BY_NAME];
                append_string(&mut r, name);
                r
            },
            ServerCommand::SetName(name) => {
                let mut r = vec![ID_SET_NAME];
                append_string(&mut r, name);
                r
            },
            ServerCommand::Statuses(statuses) => {
                let mut r = vec![ID_STATUSES];
                append_strings(&mut r, statuses);
                r
            },
            ServerCommand::Refresh => {
                let r = vec![ID_REFRESH];
                assert(r@ =~= encode(self@));
                r
            },
            ServerCommand::RefreshAllClients => {
                let r = vec![ID_REFRESH_ALL_CLIENTS];
                assert(r@ =~= encode(self@));
                r
            },
            ServerCommand::ListClients => {
                let r = vec![ID_LIST_CLIENTS];
                assert(r@ =~= encode(self@));
                r
            },
            ServerCommand::Clients(clients) => {
                let mut r = vec![ID_CLIENTS];
                append_strings(&mut r, clients);
                r
            },
        }
    }
}

// ---------------------------------------------------------------------------
// Executable decoding
// ---------------------------------------------------------------------------
fn take_u32(bytes: &[u8], at: usize) -> (r: Result<u64, ServerCommandError>)
    requires
        at <= bytes@.len(),
    ensures
        match r {
            Ok(n) => at + 4 <= bytes@.len() && n as nat == read_le32(bytes@, at as int),
            Err(e) => at + 4 > bytes@.len() && e == ServerCommandError::TooFewBytes,
        },
{
    if bytes.len() - at < 4 {
        return Err(ServerCommandError::TooFewBytes);
    }
    let n: u64 = bytes[at] as u64 + bytes[at + 1] as u64 * 256 + bytes[at + 2] as u64 * 65536
        + bytes[at + 3] as u64 * 16777216;
    Ok(n)
}

fn take_string(bytes: &[u8], at: usize) -> (r: Result<(String, usize), ServerCommandError>)
    requires
        at <= bytes@.len(),
    ensures
        match r {
            Ok((s, end)) => read_string(bytes@, at as int) == Ok::<_, ServerCommandError>((s@, end as int)),
            Err(e) => read_string(bytes@, at as int) == Err::<(Seq<char>, int), _>(e),
        },
{
    let len = bytes.len();
    let n = take_u32(bytes, at)?;
    let start = at + 4;
    if n > (bytes.len() - start) as u64 {
        return Err(ServerCommandError::TooFewBytes);
    }
    let end = start + n as usize;
    let mut payload: Vec<u8> = Vec::new();
    let mut i: usize = start;
    while i < end
        invariant
            start <= i <= end <= bytes@.len(),
            payload@ == bytes@.subrange(start as int, i as int),
        decreases end - i,
    {
        payload.push(bytes[i]);
        i = i + 1;
        assert(payload@ =~= bytes@.subrange(start as int, i as int));
    }
    match string_from_utf8(payload) {
        Some(s) => Ok((s, end)),
        None => Err(ServerCommandError::InvalidStringEncoding),
    }
}

fn take_strings(bytes: &[u8], at: usize) -> (r: Result<(Vec<String>, usize), ServerCommandError>)
    requires
        at <= bytes@.len(),
    ensures
        match r {
            Ok((v, end)) => read_strings(bytes@, at as int) == Ok::<_, ServerCommandError>(
                (strings_view(v@), end as int),
            ),
            Err(e) => read_strings(bytes@, at as int) == Err::<(Seq<Seq<char>>, int), _>(e),
        },
{
    let len = bytes.len();
    let count = take_u32(bytes, at)?;
    let mut strings: Vec<String> = Vec::new();
    assert(strings_view(strings@) =~= Seq::<Seq<char>>::empty());
    let mut pos: usize = at + 4;
    let mut i: u64 = 0;
    while i < count
        invariant
            i <= count,
            count as nat == read_le32(bytes@, at as int),
            at + 4 <= bytes@.len(),
            pos <= bytes@.len(),
            read_string_items(bytes@, at + 4, i as nat) == Ok::<_, ServerCommandError>(
                (strings_view(strings@), pos as int),
            ),
        decreases count - i,
    {
        let (s, end) = match take_string(bytes, pos) {
            Ok(x) => x,
            Err(e) => {
                assert(read_string_items(bytes@, at + 4, (i + 1) as nat) == Err::<
                    (Seq<Seq<char>>, int),
                    _,
                >(e));
                proof {
                    lemma_read_items_err_stays(bytes@, at + 4, (i + 1) as nat, count as nat, e);
                }
                return Err(e);
            },
        };
        proof {
            assert(strings_view(strings@.push(s)) =~= strings_view(strings@).push(s@));
        }
        strings.push(s);
        pos = end;
        i = i + 1;
    }
    Ok((strings, pos))
}

proof fn lemma_read_items_err_stays(b: Seq<u8>, at: int, k: nat, m: nat, e: ServerCommandError)
    requires
        k <= m,
        read_string_items(b, at, k) == Err::<(Seq<Seq<char>>, int), _>(e),
    ensures
        read_string_items(b, at, m) == Err::<(Seq<Seq<char>>, int), _>(e),
    decreases m - k,
{
    if k < m {
        lemma_read_items_err_stays(b, at, k, (m - 1) as nat, e);
    }
}

impl ServerCommand {
    /// Reads the command at the start of `bytes`.
    ///
    /// `TooFewBytes` means the buffer ends before the command does: nothing was
    /// taken and the caller may retry once more bytes have arrived.
    pub fn from_bytes(bytes: &[u8]) -> (r: Result<ServerCommandParse, ServerCommandError>)
        ensures
            match r {
                Ok(p) => parse(bytes@) == Ok::<_, ServerCommandError>(
                    (p.command@, p.bytes_used as int),
                ),
                Err(e) => parse(bytes@) == Err::<(CommandView, int), _>(e),
            },
    {
        if bytes.len() == 0 {
            return Err(ServerCommandError::TooFewBytes);
        }
        let tag = bytes[0];
        let (command, bytes_used) = if tag == ID_ABORT {
            (ServerCommand::Abort, 1)
        } else if tag == ID_SET_STATUS_OK {
            (ServerCommand::SetStatusOk, 1)
        } else if tag == ID_SET_STATUS_ERROR {
            let (s, end) = take_string(bytes, 1)?;
            (ServerCommand::SetStatusError(s), end)
        } else if tag == ID_GET_STATUSES {
            if bytes.len() < 2 {
                return Err(ServerCommandError::TooFewBytes);
            }
            if bytes[1] == 0 {
                (ServerCommand::GetStatuses(false), 2)
            } else if bytes[1] == 1 {
                (ServerCommand::GetStatuses(true), 2)
            } else {
                return Err(ServerCommandError::InvalidBoolean);
            }
        } else if tag == ID_REFRESH_CLIENT_BY_NAME {
            let (s, end) = take_string(bytes, 1)?;
            (ServerCommand::RefreshClientByName(s), end)
        } else if tag == ID_SET_NAME {
            let (s, end) = take_string(bytes, 1)?;
            (ServerCommand::SetName(s), end)
        } else if tag == ID_STATUSES {
            let (v, end) = take_strings(bytes, 1)?;
            (ServerCommand::Statuses(v), end)
        } else if tag == ID_REFRESH {
            (ServerCommand::Refresh, 1)
        } else if tag == ID_REFRESH_ALL_CLIENTS {
            (ServerCommand::RefreshAllClients, 1)
        } else if tag == ID_LIST_CLIENTS {
            (ServerCommand::ListClients, 1)
        } else if tag == ID_CLIENTS {
            let (v, end) = take_strings(bytes, 1)?;
            (ServerCommand::Clients(v), end)
        } else {
            return Err(ServerCommandError::UnknownCommand);
        };
        Ok(ServerCommandParse { command, bytes_used })
    }
}

// ---------------------------------------------------------------------------
// Laws
// ---------------------------------------------------------------------------
/// Every length that the wire carries fits in its 32-bit field.
pub open spec fn string_fits(s: Seq<char>) -> bool {
    encode_utf8(s).len() < 0x1_0000_0000
}

pub open spec fn strings_fit(v: Seq<Seq<char>>) -> bool {
    &&& v.len() < 0x1_0000_0000
    &&& forall|i: int| 0 <= i < v.len() ==> string_fits(#[trigger] v[i])
}

pub open spec fn command_fits(c: CommandView) -> bool {
    match c {
        CommandView::SetStatusError(m) => string_fits(m),
        CommandView::RefreshClientByName(n) => string_fits(n),
        CommandView::SetName(n) => string_fits(n),
        CommandView::Statuses(v) => strings_fit(v),
        CommandView::Clients(v) => strings_fit(v),
        _ => true,
    }
}

proof fn lemma_read_le32(b: Seq<u8>, at: int, n: nat)
    requires
        0 <= at,
        at + 4 <= b.len(),
        b.subrange(at, at + 4) == le32(n),
        n < 0x1_0000_0000,
    ensures
        read_le32(b, at) == n,
{
    assert(b[at] == b.subrange(at, at + 4)[0]);
    assert(b[at + 1] == b.subrange(at, at + 4)[1]);
    assert(b[at + 2] == b.subrange(at, at + 4)[2]);
    assert(b[at + 3] == b.subrange(at, at + 4)[3]);
}

proof fn lemma_read_string_whole(b: Seq<u8>, at: int, s: Seq<char>)
    requires
        0 <= at,
        at + encode_string(s).len() <= b.len(),
        b.subrange(at, at + encode_string(s).len()) == encode_string(s),
        string_fits(s),
    ensures
        read_string(b, at) == Ok::<_, ServerCommandError>((s, at + encode_string(s).len())),
{
    let u = encode_utf8(s);
    let e = encode_string(s);
    assert(b.subrange(at, at + 4) =~= e.subrange(0, 4));
    assert(e.subrange(0, 4) =~= le32(u.len()));
    lemma_read_le32(b, at, u.len());
    assert(b.subrange(at + 4, at + 4 + u.len()) =~= e.subrange(4, e.len() as int));
    assert(e.subrange(4, e.len() as int) =~= u);
    vstd::utf8::encode_utf8_valid_utf8(s);
    vstd::utf8::encode_utf8_decode_utf8(s);
}

proof fn lemma_read_string_cut(b: Seq<u8>, at: int, s: Seq<char>)
    requires
        0 <= at <= b.len() < at + encode_string(s).len(),
        b.subrange(at, b.len() as int) == encode_string(s).subrange(0, b.len() - at),
        string_fits(s),
    ensures
        read_string(b, at) == Err::<(Seq<char>, int), _>(ServerCommandError::TooFewBytes),
{
    let u = encode_utf8(s);
    let e = encode_string(s);
    if at + 4 <= b.len() {
        assert(b.subrange(at, at + 4) =~= e.subrange(0, 4));
        assert(e.subrange(0, 4) =~= le32(u.len()));
        lemma_read_le32(b, at, u.len());
    }
}

proof fn lemma_read_items_whole(b: Seq<u8>, at: int, v: Seq<Seq<char>>)
    requires
        0 <= at,
        at + encode_string_items(v).len() <= b.len(),
        b.subrange(at, at + encode_string_items(v).len()) == encode_string_items(v),
        forall|i: int| 0 <= i < v.len() ==> string_fits(#[trigger] v[i]),
    ensures
        read_string_items(b, at, v.len()) == Ok::<_, ServerCommandError>(
            (v, at + encode_string_items(v).len()),
        ),
    decreases v.len(),
{
    if v.len() > 0 {
        let front = v.drop_last();
        let d = encode_string_items(front).len();
        let whole = encode_string_items(v);
        assert(whole == encode_string_items(front) + encode_string(v.last()));
        assert(b.subrange(at, at + d) =~= whole.subrange(0, d as int));
        assert(whole.subrange(0, d as int) =~= encode_string_items(front));
        assert forall|i: int| 0 <= i < front.len() implies string_fits(#[trigger] front[i]) by {
            assert(front[i] == v[i]);
        }
        lemma_read_items_whole(b, at, front);
        assert(b.subrange(at + d, at + whole.len()) =~= whole.subrange(d as int, whole.len() as int));
        assert(whole.subrange(d as int, whole.len() as int) =~= encode_string(v.last()));
        assert(string_fits(v[v.len() - 1]));
        lemma_read_string_whole(b, at + d, v.last());
        assert(front.push(v.last()) =~= v);
    } else {
        assert(v =~= Seq::<Seq<char>>::empty());
    }
}

proof fn lemma_read_items_cut(b: Seq<u8>, at: int, v: Seq<Seq<char>>)
    requires
        0 <= at <= b.len() < at + encode_string_items(v).len(),
        b.subrange(at, b.len() as int) == encode_string_items(v).subrange(0, b.len() - at),
        forall|i: int| 0 <= i < v.len() ==> string_fits(#[trigger] v[i]),
    ensures
        read_string_items(b, at, v.len()) == Err::<(Seq<Seq<char>>, int), _>(
            ServerCommandError::TooFewBytes,
        ),
    decreases v.len(),
{
    let front = v.drop_last();
    let d = encode_string_items(front).len();
    let whole = encode_string_items(v);
    assert(whole == encode_string_items(front) + encode_string(v.last()));
    assert forall|i: int| 0 <= i < front.len() implies string_fits(#[trigger] front[i]) by {
        assert(front[i] == v[i]);
    }
    assert(string_fits(v[v.len() - 1]));
    if b.len() < at + d {
        assert(b.subrange(at, b.len() as int) =~= encode_string_items(front).subrange(
            0,
            b.len() - at,
        ));
        lemma_read_items_cut(b, at, front);
    } else {
        assert(b.subrange(at, at + d) =~= whole.subrange(0, d as int));
        assert(whole.subrange(0, d as int) =~= encode_string_items(front));
        lemma_read_items_whole(b, at, front);
        assert forall|j: int| 0 <= j < b.len() - at - d implies #[trigger] b.subrange(
            at + d,
            b.len() as int,
        )[j] == encode_string(v.last()).subrange(0, b.len() - at - d)[j] by {
            assert(b.subrange(at, b.len() as int)[d + j] == whole.subrange(0, b.len() - at)[d
                + j]);
        }
        assert(b.subrange(at + d, b.len() as int) =~= encode_string(v.last()).subrange(
            0,
            b.len() - at - d,
        ));
        lemma_read_string_cut(b, at + d, v.last());
    }
}

proof fn lemma_read_strings_whole(b: Seq<u8>, at: int, v: Seq<Seq<char>>)
    requires
        0 <= at,
        at + encode_strings(v).len() <= b.len(),
        b.subrange(at, at + encode_strings(v).len()) == encode_strings(v),
        strings_fit(v),
    ensures
        read_strings(b, at) == Ok::<_, ServerCommandError>((v, at + encode_strings(v).len())),
{
    let e = encode_strings(v);
    assert(b.subrange(at, at + 4) =~= e.subrange(0, 4));
    assert(e.subrange(0, 4) =~= le32(v.len()));
    lemma_read_le32(b, at, v.len());
    assert(b.subrange(at + 4, at + e.len()) =~= e.subrange(4, e.len() as int));
    assert(e.subrange(4, e.len() as int) =~= encode_string_items(v));
    lemma_read_items_whole(b, at + 4, v);
}

proof fn lemma_read_strings_cut(b: Seq<u8>, at: int, v: Seq<Seq<char>>)
    requires
        0 <= at <= b.len() < at + encode_strings(v).len(),
        b.subrange(at, b.len() as int) == encode_strings(v).subrange(0, b.len() - at),
        strings_fit(v),
    ensures
        read_strings(b, at) == Err::<(Seq<Seq<char>>, int), _>(ServerCommandError::TooFewBytes),
{
    let e = encode_strings(v);
    if at + 4 <= b.len() {
        assert(b.subrange(at, at + 4) =~= e.subrange(0, 4));
        assert(e.subrange(0, 4) =~= le32(v.len()));
        lemma_read_le32(b, at, v.len());
        assert forall|j: int| 0 <= j < b.len() - at - 4 implies #[trigger] b.subrange(
            at + 4,
            b.len() as int,
        )[j] == encode_string_items(v).subrange(0, b.len() - at - 4)[j] by {
            assert(b.subrange(at, b.len() as int)[4 + j] == e.subrange(0, b.len() - at)[4 + j]);
        }
        assert(b.subrange(at + 4, b.len() as int) =~= encode_string_items(v).subrange(
            0,
            b.len() - at - 4,
        ));
        lemma_read_items_cut(b, at + 4, v);
    }
}

/// Decoding the bytes of a command gives back that command and the number of
/// bytes it takes, whatever bytes follow it in the buffer.
pub proof fn lemma_decode_encode(c: CommandView, rest: Seq<u8>)
    requires
        command_fits(c),
    ensures
        parse(encode(c) + rest) == Ok::<_, ServerCommandError>((c, encode(c).len() as int)),
{
    let b = encode(c) + rest;
    let n = encode(c).len() as int;
    assert(b[0] == encode(c)[0]);
    match c {
        CommandView::SetStatusError(m) => {
            assert(b.subrange(1, n) =~= encode_string(m));
            lemma_read_string_whole(b, 1, m);
        },
        CommandView::RefreshClientByName(m) => {
            assert(b.subrange(1, n) =~= encode_string(m));
            lemma_read_string_whole(b, 1, m);
        },
        CommandView::SetName(m) => {
            assert(b.subrange(1, n) =~= encode_string(m));
            lemma_read_string_whole(b, 1, m);
        },
        CommandView::GetStatuses(x) => {
            assert(b[1] == encode(c)[1]);
        },
        CommandView::Statuses(v) => {
            assert(b.subrange(1, n) =~= encode_strings(v));
            lemma_read_strings_whole(b, 1, v);
        },
        CommandView::Clients(v) => {
            assert(b.subrange(1, n) =~= encode_strings(v));
            lemma_read_strings_whole(b, 1, v);
        },
        _ => {},
    }
}

/// Every strict prefix of the bytes of a command is reported as too short,
/// so a reader waits for more bytes instead of failing.
pub proof fn lemma_decode_prefix(c: CommandView, k: int)
    requires
        command_fits(c),
        0 <= k < encode(c).len(),
    ensures
        parse(encode(c).subrange(0, k)) == Err::<(CommandView, int), _>(
            ServerCommandError::TooFewBytes,
        ),
{
    let b = encode(c).subrange(0, k);
    if k > 0 {
        assert(b[0] == encode(c)[0]);
        match c {
            CommandView::SetStatusError(m) => {
                assert(b.subrange(1, k) =~= encode_string(m).subrange(0, k - 1));
                lemma_read_string_cut(b, 1, m);
            },
            CommandView::RefreshClientByName(m) => {
                assert(b.subrange(1, k) =~= encode_string(m).subrange(0, k - 1));
                lemma_read_string_cut(b, 1, m);
            },
            CommandView::SetName(m) => {
                assert(b.subrange(1, k) =~= encode_string(m).subrange(0, k - 1));
                lemma_read_string_cut(b, 1, m);
            },
            CommandView::Statuses(v) => {
                assert(b.subrange(1, k) =~= encode_strings(v).subrange(0, k - 1));
                lemma_read_strings_cut(b, 1, v);
            },
            CommandView::Clients(v) => {
                assert(b.subrange(1, k) =~= encode_strings(v).subrange(0, k - 1));
                lemma_read_strings_cut(b, 1, v);
            },
            _ => {},
        }
    }
}

} // verus!
