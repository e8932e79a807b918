//! Peer invites: a node identity as a deep link, or as plain hexadecimal text.

use crate::hex_text::{HexError, hex_decode, hex_encode, hex_text, hex_value, law_hex_round_trip};
use crate::identity::{NodeId, bytes32_at};
use vstd::prelude::*;
use vstd::string::{StrSliceExecFns, StringExecFns};
use vstd::utf8::encode_utf8;

verus! {

/// The scheme of an invite.
pub const JACQUARD_BLE_INVITE_SCHEME: &'static str = "jq-ble";

/// The action that an invite asks for.
pub const INVITE_ACTION_PATH: &'static str = "/add-peer/";

/// Why an invite cannot be used.
#[derive(Debug, PartialEq, Eq)]
pub enum JacquardPeerInviteError {
    /// Nothing but white space.
    Empty,
    /// Another scheme than that of invites.
    InvalidScheme { expected: &'static str, found: String },
    /// No action of an invite.
    InvalidFormat,
    /// Not as many bytes of text as a node identity takes.
    InvalidNodeIdLength { found: u64 },
    /// A node identity that is not hexadecimal.
    InvalidNodeIdHex(HexError),
}

/// What a [`JacquardPeerInviteError`] says.
pub ghost enum InviteErrorView {
    Empty,
    InvalidScheme { expected: Seq<char>, found: Seq<char> },
    InvalidFormat,
    InvalidNodeIdLength { found: u64 },
    InvalidNodeIdHex(HexError),
}

impl View for JacquardPeerInviteError {
    type V = InviteErrorView;

    open spec fn view(&self) -> InviteErrorView {
        match self {
            JacquardPeerInviteError::Empty => InviteErrorView::Empty,
            JacquardPeerInviteError::InvalidScheme {
                expected,
                found,
            } => InviteErrorView::InvalidScheme { expected: expected@, found: found@ },
            JacquardPeerInviteError::InvalidFormat => InviteErrorView::InvalidFormat,
            JacquardPeerInviteError::InvalidNodeIdLength {
                found,
            } => InviteErrorView::InvalidNodeIdLength { found: *found },
            JacquardPeerInviteError::InvalidNodeIdHex(error) => InviteErrorView::InvalidNodeIdHex(
                *error,
            ),
        }
    }
}

/// The characters with the Unicode property `White_Space`.
pub open spec fn is_white_space(c: char) -> bool {
    let code = c as u32;
    ||| 0x9 <= code <= 0xd
    ||| code == 0x20
    ||| code == 0x85
    ||| code == 0xa0
    ||| code == 0x1680
    ||| 0x2000 <= code <= 0x200a
    ||| code == 0x2028
    ||| code == 0x2029
    ||| code == 0x202f
    ||| code == 0x205f
    ||| code == 0x3000
}

fn white_space(c: char) -> (found: bool)
    ensures
        found == is_white_space(c),
{
    let code: u32 = c as u32;
    (0x9 <= code && code <= 0xd) || code == 0x20 || code == 0x85 || code == 0xa0 || code == 0x1680
        || (0x2000 <= code && code <= 0x200a) || code == 0x2028 || code == 0x2029 || code == 0x202f
        || code == 0x205f || code == 0x3000
}

/// Text without the white space at its start.
pub open spec fn trim_start(text: Seq<char>) -> Seq<char>
    decreases text.len(),
{
    if text.len() > 0 && is_white_space(text[0]) {
        trim_start(text.drop_first())
    } else {
        text
    }
}

/// Text without the white space at its end.
pub open spec fn trim_end(text: Seq<char>) -> Seq<char>
    decreases text.len(),
{
    if text.len() > 0 && is_white_space(text.last()) {
        trim_end(text.drop_last())
    } else {
        text
    }
}

/// Text without the white space around it.
pub open spec fn trimmed(text: Seq<char>) -> Seq<char> {
    trim_end(trim_start(text))
}

fn trim(text: &str) -> (inner: &str)
    ensures
        inner@ == trimmed(text@),
{
    let len: usize = text.unicode_len();
    let mut from: usize = 0;
    assert(text@.skip(0) =~= text@);
    while from < len && white_space(text.get_char(from))
        invariant
            from <= len,
            len == text@.len(),
            trim_start(text@) == trim_start(text@.skip(from as int)),
        decreases len - from,
    {
        assert(text@.skip(from as int).drop_first() =~= text@.skip(from + 1));
        from = from + 1;
    }
    let ghost inner = text@.skip(from as int);
    let mut to: usize = len;
    assert(inner.take(inner.len() as int) =~= inner);
    while from < to && white_space(text.get_char(to - 1))
        invariant
            from <= to <= len,
            len == text@.len(),
            inner == text@.skip(from as int),
            trim_end(inner) == trim_end(inner.take(to - from)),
        decreases to - from,
    {
        assert(inner.take(to - from).drop_last() =~= inner.take(to - 1 - from));
        assert(inner.take(to - from).last() == text@[to - 1]);
        to = to - 1;
    }
    proof {
        if from < to {
            assert(inner.take(to - from).last() == text@[to - 1]);
        }
        assert(text@.subrange(from as int, to as int) =~= inner.take(to - from));
    }
    text.substring_char(from, to)
}

/// Whether `://` stands at a position.
pub open spec fn separator_at(text: Seq<char>, i: int) -> bool {
    0 <= i && i + 3 <= text.len() && text[i] == ':' && text[i + 1] == '/' && text[i + 2] == '/'
}

/// Where `://` stands first, from a position on.
pub open spec fn first_separator(text: Seq<char>, from: int) -> Option<int>
    decreases text.len() - from,
{
    if from < 0 || from >= text.len() {
        None
    } else if separator_at(text, from) {
        Some(from)
    } else {
        first_separator(text, from + 1)
    }
}

fn find_separator(text: &str) -> (found: Option<usize>)
    ensures
        match found {
            Some(i) => first_separator(text@, 0) == Some(i as int) && i + 3 <= text@.len(),
            None => first_separator(text@, 0) is None,
        },
{
    let len: usize = text.unicode_len();
    let mut i: usize = 0;
    while i < len
        invariant
            i <= len,
            len == text@.len(),
            first_separator(text@, 0) == first_separator(text@, i as int),
        decreases len - i,
    {
        if len - i >= 3 && text.get_char(i) == ':' && text.get_char(i + 1) == '/' && text.get_char(
            i + 2,
        ) == '/' {
            return Some(i);
        }
        i = i + 1;
    }
    None
}

/// Whether text starts with other text.
fn starts_with(text: &str, prefix: &str) -> (found: bool)
    ensures
        found == prefix@.is_prefix_of(text@),
{
    let len: usize = prefix.unicode_len();
    if text.unicode_len() < len {
        return false;
    }
    let mut i: usize = 0;
    while i < len
        invariant
            i <= len,
            len == prefix@.len(),
            len <= text@.len(),
            forall|j: int| 0 <= j < i ==> prefix@[j] == text@[j],
        decreases len - i,
    {
        if prefix.get_char(i) != text.get_char(i) {
            assert(prefix@ != text@.take(len as int)) by {
                assert(text@.take(len as int)[i as int] == text@[i as int]);
            }
            return false;
        }
        i = i + 1;
    }
    assert(prefix@ =~= text@.take(len as int));
    true
}

/// The node identity that hexadecimal text stands for.
pub open spec fn identity_in(text: Seq<char>) -> Result<Seq<u8>, InviteErrorView> {
    let bytes = encode_utf8(text);
    if bytes.len() != 64 {
        Err(InviteErrorView::InvalidNodeIdLength { found: bytes.len() as u64 })
    } else {
        match hex_value(bytes) {
            Ok(identity) => Ok(identity),
            Err(error) => Err(InviteErrorView::InvalidNodeIdHex(error)),
        }
    }
}

/// The path of a deep link, with a leading slash.
pub open spec fn link_path(remainder: Seq<char>) -> Seq<char> {
    if remainder.len() > 0 && remainder[0] == '/' {
        remainder
    } else {
        "/"@ + remainder
    }
}

/// The node identity that an invite names, or what is wrong with it. A deep link has the scheme of
/// invites and the path of their action; anything without a scheme is taken as the identity itself.
pub open spec fn invite_identity(invite: Seq<char>) -> Result<Seq<u8>, InviteErrorView> {
    let text = trimmed(invite);
    if text.len() == 0 {
        Err(InviteErrorView::Empty)
    } else {
        match first_separator(text, 0) {
            Some(i) => if text.take(i) != JACQUARD_BLE_INVITE_SCHEME@ {
                Err(
                    InviteErrorView::InvalidScheme {
                        expected: JACQUARD_BLE_INVITE_SCHEME@,
                        found: text.take(i),
                    },
                )
            } else if !INVITE_ACTION_PATH@.is_prefix_of(link_path(text.skip(i + 3))) {
                Err(InviteErrorView::InvalidFormat)
            } else {
                identity_in(
                    trimmed(link_path(text.skip(i + 3)).skip(INVITE_ACTION_PATH@.len() as int)),
                )
            },
            None => identity_in(text),
        }
    }
}

/// An invite for a node: a deep link.
pub open spec fn invite_text(node_id: NodeId) -> Seq<char> {
    JACQUARD_BLE_INVITE_SCHEME@ + "://"@ + INVITE_ACTION_PATH@ + hex_text(node_id.0@)
}

/// An invite for a node.
pub fn encode_peer_invite(node_id: NodeId) -> (invite: String)
    ensures
        invite@ == invite_text(node_id),
{
    let digits = hex_encode(node_id.0.as_slice());
    let mut invite = JACQUARD_BLE_INVITE_SCHEME.to_owned();
    invite.append("://");
    invite.append(INVITE_ACTION_PATH);
    invite.append(digits.as_str());
    invite
}

/// The node identity that hexadecimal text stands for.
fn decode_identity(text: &str) -> (result: Result<NodeId, JacquardPeerInviteError>)
    ensures
        match result {
            Ok(node_id) => identity_in(text@) == Ok::<Seq<u8>, InviteErrorView>(node_id.0@),
            Err(error) => identity_in(text@) == Err::<Seq<u8>, InviteErrorView>(error@),
        },
{
    let bytes = text.as_bytes();
    let len: usize = bytes.len();
    if len != 64 {
        return Err(JacquardPeerInviteError::InvalidNodeIdLength { found: len as u64 });
    }
    match hex_decode(bytes) {
        Ok(identity) => {
            let node_id = NodeId(bytes32_at(identity.as_slice(), 0));
            assert(node_id.0@ =~= identity@);
            Ok(node_id)
        },
        Err(error) => Err(JacquardPeerInviteError::InvalidNodeIdHex(error)),
    }
}

/// The node that an invite names.
pub fn decode_peer_invite(invite: &str) -> (result: Result<NodeId, JacquardPeerInviteError>)
    ensures
        match result {
            Ok(node_id) => invite_identity(invite@) == Ok::<Seq<u8>, InviteErrorView>(node_id.0@),
            Err(error) => invite_identity(invite@) == Err::<Seq<u8>, InviteErrorView>(error@),
        },
{
    let text = trim(invite);
    let len: usize = text.unicode_len();
    if len == 0 {
        return Err(JacquardPeerInviteError::Empty);
    }
    let separator = match find_separator(text) {
        Some(separator) => separator,
        None => return decode_identity(text),
    };
    let scheme = text.substring_char(0, separator).to_owned();
    assert(scheme@ =~= text@.take(separator as int));
    if scheme != JACQUARD_BLE_INVITE_SCHEME.to_owned() {
        return Err(
            JacquardPeerInviteError::InvalidScheme {
                expected: JACQUARD_BLE_INVITE_SCHEME,
                found: scheme,
            },
        );
    }
    let remainder = text.substring_char(separator + 3, len);
    assert(remainder@ =~= text@.skip(separator + 3));
    let path = if remainder.unicode_len() > 0 && remainder.get_char(0) == '/' {
        remainder.to_owned()
    } else {
        "/".to_owned().concat(remainder)
    };
    assert(path@ == link_path(remainder@));
    if !starts_with(path.as_str(), INVITE_ACTION_PATH) {
        return Err(JacquardPeerInviteError::InvalidFormat);
    }
    let skipped: usize = INVITE_ACTION_PATH.unicode_len();
    let path_len: usize = path.as_str().unicode_len();
    let digits = path.as_str().substring_char(skipped, path_len);
    assert(digits@ =~= path@.skip(skipped as int));
    decode_identity(trim(digits))
}

/// Text that starts and ends with other characters than white space stays as it is.
proof fn lemma_trimmed_stays(text: Seq<char>)
    requires
        text.len() > 0,
        !is_white_space(text[0]),
        !is_white_space(text.last()),
    ensures
        trimmed(text) == text,
{
}

/// Text without a colon has no separator.
proof fn lemma_no_separator(text: Seq<char>, from: int)
    requires
        0 <= from,
        forall|i: int| from <= i < text.len() ==> #[trigger] text[i] != ':',
    ensures
        first_separator(text, from) is None,
    decreases text.len() - from,
{
    if from < text.len() {
        lemma_no_separator(text, from + 1);
    }
}

/// Hexadecimal digits are no white space and no colon.
proof fn lemma_digits_are_plain(bytes: Seq<u8>)
    ensures
        forall|i: int|
            0 <= i < hex_text(bytes).len() ==> {
                &&& !is_white_space(#[trigger] hex_text(bytes)[i])
                &&& hex_text(bytes)[i] != ':'
            },
{
    assert forall|k: int| 0 <= k < hex_text(bytes).len() implies {
        &&& !is_white_space(#[trigger] hex_text(bytes)[k])
        &&& hex_text(bytes)[k] != ':'
    } by {
        let v = if k % 2 == 0 {
            bytes[k / 2] as int / 16
        } else {
            bytes[k / 2] as int % 16
        };
        assert(0 <= v < 16);
        assert(hex_text(bytes)[k] == crate::hex_text::hex_digit(v));
    }
}

/// A node identity in lower-case digits is read back.
proof fn lemma_identity_round_trip(node_id: NodeId)
    ensures
        identity_in(hex_text(node_id.0@)) == Ok::<Seq<u8>, InviteErrorView>(node_id.0@),
        trimmed(hex_text(node_id.0@)) == hex_text(node_id.0@),
{
    let chars = hex_text(node_id.0@);
    law_hex_round_trip(node_id.0@);
    lemma_digits_are_plain(node_id.0@);
    assert(vstd::utf8::is_ascii_chars(chars));
    vstd::utf8::is_ascii_chars_encode_utf8(chars);
    assert(encode_utf8(chars) =~= chars.map_values(|c: char| c as u8));
    assert(chars.len() == 64);
    lemma_trimmed_stays(chars);
}

/// The invite for a node names that node.
pub proof fn law_invite_round_trip(node_id: NodeId)
    ensures
        invite_identity(invite_text(node_id)) == Ok::<Seq<u8>, InviteErrorView>(node_id.0@),
{
    let digits = hex_text(node_id.0@);
    let text = invite_text(node_id);
    reveal_strlit("jq-ble");
    reveal_strlit("://");
    reveal_strlit("/add-peer/");
    lemma_identity_round_trip(node_id);
    lemma_digits_are_plain(node_id.0@);
    assert(digits.len() == 64);
    assert(text.len() == 83);
    assert(text[0] == 'j' && text[1] == 'q' && text[2] == '-' && text[3] == 'b' && text[4] == 'l'
        && text[5] == 'e' && text[6] == ':' && text[7] == '/' && text[8] == '/');
    assert(text.last() == digits[63]);
    lemma_trimmed_stays(text);
    reveal_with_fuel(first_separator, 8);
    assert(first_separator(text, 0) == Some(6int));
    assert(text.take(6) =~= "jq-ble"@);
    assert(text.skip(9) =~= "/add-peer/"@ + digits);
    assert(link_path(text.skip(9)) == text.skip(9));
    assert(text.skip(9).take(10) =~= "/add-peer/"@);
    assert(text.skip(9).skip(10) =~= digits);
}

/// The short link to a node, without the slash before its path, names that node too.
pub proof fn law_short_link_is_an_invite(node_id: NodeId)
    ensures
        invite_identity("jq-ble"@ + "://"@ + "add-peer/"@ + hex_text(node_id.0@)) == Ok::<
            Seq<u8>,
            InviteErrorView,
        >(node_id.0@),
{
    let digits = hex_text(node_id.0@);
    let text = "jq-ble"@ + "://"@ + "add-peer/"@ + digits;
    reveal_strlit("jq-ble");
    reveal_strlit("://");
    reveal_strlit("add-peer/");
    reveal_strlit("/add-peer/");
    lemma_identity_round_trip(node_id);
    lemma_digits_are_plain(node_id.0@);
    assert(digits.len() == 64);
    assert(text[0] == 'j' && text[1] == 'q' && text[2] == '-' && text[3] == 'b' && text[4] == 'l'
        && text[5] == 'e' && text[6] == ':' && text[7] == '/' && text[8] == '/');
    assert(text.last() == digits[63]);
    lemma_trimmed_stays(text);
    reveal_with_fuel(first_separator, 8);
    assert(first_separator(text, 0) == Some(6int));
    assert(text.take(6) =~= "jq-ble"@);
    assert(text.skip(9) =~= "add-peer/"@ + digits);
    reveal_strlit("/");
    assert(link_path(text.skip(9)) =~= "/add-peer/"@ + digits);
    assert(("/add-peer/"@ + digits).take(10) =~= "/add-peer/"@);
    assert(("/add-peer/"@ + digits).skip(10) =~= digits);
}

/// The plain hexadecimal identity of a node names that node.
pub proof fn law_plain_identity_is_an_invite(node_id: NodeId)
    ensures
        invite_identity(hex_text(node_id.0@)) == Ok::<Seq<u8>, InviteErrorView>(node_id.0@),
{
    lemma_identity_round_trip(node_id);
    lemma_digits_are_plain(node_id.0@);
    lemma_no_separator(hex_text(node_id.0@), 0);
}

proof fn lemma_trim_start_drops(pre: Seq<char>, text: Seq<char>)
    requires
        forall|i: int| 0 <= i < pre.len() ==> is_white_space(#[trigger] pre[i]),
    ensures
        trim_start(pre + text) == trim_start(text),
    decreases pre.len(),
{
    if pre.len() == 0 {
        assert(pre + text =~= text);
    } else {
        assert((pre + text)[0] == pre[0]);
        assert((pre + text).drop_first() =~= pre.drop_first() + text);
        lemma_trim_start_drops(pre.drop_first(), text);
    }
}

proof fn lemma_trim_start_keeps(text: Seq<char>, post: Seq<char>)
    requires
        exists|i: int| 0 <= i < text.len() && !is_white_space(#[trigger] text[i]),
    ensures
        trim_start(text + post) == trim_start(text) + post,
    decreases text.len(),
{
    assert((text + post)[0] == text[0]);
    if is_white_space(text[0]) {
        let i = choose|i: int| 0 <= i < text.len() && !is_white_space(#[trigger] text[i]);
        assert(text.drop_first()[i - 1] == text[i]);
        assert((text + post).drop_first() =~= text.drop_first() + post);
        lemma_trim_start_keeps(text.drop_first(), post);
    }
}

proof fn lemma_trim_end_drops(text: Seq<char>, post: Seq<char>)
    requires
        forall|i: int| 0 <= i < post.len() ==> is_white_space(#[trigger] post[i]),
    ensures
        trim_end(text + post) == trim_end(text),
    decreases post.len(),
{
    if post.len() == 0 {
        assert(text + post =~= text);
    } else {
        assert((text + post).last() == post.last());
        assert((text + post).drop_last() =~= text + post.drop_last());
        lemma_trim_end_drops(text, post.drop_last());
    }
}

proof fn lemma_all_space_trims_away(text: Seq<char>)
    requires
        forall|i: int| 0 <= i < text.len() ==> is_white_space(#[trigger] text[i]),
    ensures
        trim_start(text).len() == 0,
    decreases text.len(),
{
    if text.len() > 0 {
        lemma_all_space_trims_away(text.drop_first());
    }
}

/// White space around an invite makes no difference.
pub proof fn law_invite_ignores_white_space_around(
    pre: Seq<char>,
    invite: Seq<char>,
    post: Seq<char>,
)
    requires
        forall|i: int| 0 <= i < pre.len() ==> is_white_space(#[trigger] pre[i]),
        forall|i: int| 0 <= i < post.len() ==> is_white_space(#[trigger] post[i]),
    ensures
        invite_identity(pre + invite + post) == invite_identity(invite),
{
    assert(pre + invite + post =~= pre + (invite + post));
    lemma_trim_start_drops(pre, invite + post);
    if exists|i: int| 0 <= i < invite.len() && !is_white_space(#[trigger] invite[i]) {
        lemma_trim_start_keeps(invite, post);
        lemma_trim_end_drops(trim_start(invite), post);
    } else {
        lemma_all_space_trims_away(invite);
        lemma_all_space_trims_away(invite + post);
        assert(trim_start(invite) =~= trim_start(invite + post));
    }
}

proof fn lemma_trim_start_is_a_part(text: Seq<char>) -> (from: int)
    ensures
        0 <= from <= text.len(),
        trim_start(text) == text.skip(from),
        forall|i: int| 0 <= i < from ==> is_white_space(#[trigger] text[i]),
        from < text.len() ==> !is_white_space(text[from]),
    decreases text.len(),
{
    if text.len() > 0 && is_white_space(text[0]) {
        let from = lemma_trim_start_is_a_part(text.drop_first());
        assert(text.drop_first().skip(from) =~= text.skip(from + 1));
        assert forall|i: int| 0 <= i < from + 1 implies is_white_space(#[trigger] text[i]) by {
            if i > 0 {
                assert(text.drop_first()[i - 1] == text[i]);
            }
        }
        from + 1
    } else {
        assert(text.skip(0) =~= text);
        0
    }
}

proof fn lemma_trim_end_is_a_part(text: Seq<char>) -> (to: int)
    ensures
        0 <= to <= text.len(),
        trim_end(text) == text.take(to),
        forall|i: int| to <= i < text.len() ==> is_white_space(#[trigger] text[i]),
        0 < to ==> !is_white_space(text[to - 1]),
    decreases text.len(),
{
    if text.len() > 0 && is_white_space(text.last()) {
        let to = lemma_trim_end_is_a_part(text.drop_last());
        assert(text.drop_last().take(to) =~= text.take(to));
        assert forall|i: int| to <= i < text.len() implies is_white_space(#[trigger] text[i]) by {
            if i < text.len() - 1 {
                assert(text.drop_last()[i] == text[i]);
            }
        }
        to
    } else {
        assert(text.take(text.len() as int) =~= text);
        text.len() as int
    }
}

/// Trimming takes off all the white space around text and nothing else: what is left starts and ends
/// with another character, and only white space stood around it.
pub proof fn law_trimming_takes_white_space_only(text: Seq<char>)
    ensures
        exists|from: int, to: int|
            0 <= from <= to <= text.len() && #[trigger] text.subrange(from, to) == trimmed(text)
                && (forall|i: int|
                0 <= i < text.len() && !(from <= i < to) ==> is_white_space(#[trigger] text[i])),
        trimmed(text).len() > 0 ==> !is_white_space(trimmed(text)[0]) && !is_white_space(
            trimmed(text).last(),
        ),
{
    let from = lemma_trim_start_is_a_part(text);
    let inner = text.skip(from);
    let to = lemma_trim_end_is_a_part(inner);
    assert(inner.take(to) =~= text.subrange(from, from + to));
    assert forall|i: int| 0 <= i < text.len() && !(from <= i < from + to) implies is_white_space(
        #[trigger] text[i],
    ) by {
        if i >= from + to {
            assert(inner[i - from] == text[i]);
        }
    }
    assert(text.subrange(from, from + to) == trimmed(text));
}

/// Nothing but white space is no invite at all.
pub proof fn law_blank_text_is_no_invite(invite: Seq<char>)
    ensures
        invite_identity(invite) == Err::<Seq<u8>, InviteErrorView>(InviteErrorView::Empty)
            <==> forall|i: int| 0 <= i < invite.len() ==> is_white_space(#[trigger] invite[i]),
{
    let from = lemma_trim_start_is_a_part(invite);
    if forall|i: int| 0 <= i < invite.len() ==> is_white_space(#[trigger] invite[i]) {
        lemma_all_space_trims_away(invite);
    }
    if trimmed(invite).len() == 0 {
        let inner = invite.skip(from);
        let to = lemma_trim_end_is_a_part(inner);
        if from < invite.len() {
            assert(inner[0] == invite[from]);
            assert(is_white_space(inner[0]));
        }
    }
}

proof fn lemma_first_separator_is_first(text: Seq<char>, from: int, i: int)
    requires
        0 <= from <= i,
        separator_at(text, i),
        forall|j: int| from <= j < i ==> !(#[trigger] separator_at(text, j)),
    ensures
        first_separator(text, from) == Some(i),
    decreases i - from,
{
    if from < i {
        assert(!separator_at(text, from));
        lemma_first_separator_is_first(text, from + 1, i);
    }
}

/// A link is judged by its parts: one with another scheme is refused with that scheme, one with the
/// right scheme and another action has the wrong format, and otherwise what follows the action, with
/// or without white space around it, is taken as the identity.
pub proof fn law_link_is_judged_by_its_parts(invite: Seq<char>, i: int)
    requires
        separator_at(trimmed(invite), i),
        forall|j: int| 0 <= j < i ==> !(#[trigger] separator_at(trimmed(invite), j)),
    ensures
        ({
            let text = trimmed(invite);
            let scheme = text.take(i);
            let path = link_path(text.skip(i + 3));
            let judged = invite_identity(invite);
            &&& scheme != "jq-ble"@ ==> judged == Err::<Seq<u8>, InviteErrorView>(
                InviteErrorView::InvalidScheme { expected: "jq-ble"@, found: scheme },
            )
            &&& scheme == "jq-ble"@ && !"/add-peer/"@.is_prefix_of(path) ==> judged == Err::<
                Seq<u8>,
                InviteErrorView,
            >(InviteErrorView::InvalidFormat)
            &&& scheme == "jq-ble"@ && "/add-peer/"@.is_prefix_of(path) ==> judged == identity_in(
                trimmed(path.skip(10)),
            )
            &&& path == text.skip(i + 3) || path == "/"@ + text.skip(i + 3)
            &&& path.len() > 0 && path[0] == '/'
        }),
{
    lemma_first_separator_is_first(trimmed(invite), 0, i);
    reveal_strlit("/add-peer/");
    reveal_strlit("/");
}

/// Text without a scheme is taken as the identity itself. An identity has 64 digits, in either case;
/// anything else is refused by its length first.
pub proof fn law_plain_text_is_judged_as_identity(invite: Seq<char>)
    requires
        trimmed(invite).len() > 0,
        forall|i: int| 0 <= i < trimmed(invite).len() ==> #[trigger] trimmed(invite)[i] != ':',
    ensures
        invite_identity(invite) == identity_in(trimmed(invite)),
        ({
            let bytes = encode_utf8(trimmed(invite));
            &&& bytes.len() != 64 ==> invite_identity(invite) == Err::<Seq<u8>, InviteErrorView>(
                InviteErrorView::InvalidNodeIdLength { found: bytes.len() as u64 },
            )
            &&& bytes.len() == 64 ==> match hex_value(bytes) {
                Ok(identity) => invite_identity(invite) == Ok::<Seq<u8>, InviteErrorView>(identity)
                    && identity.len() == 32,
                Err(error) => invite_identity(invite) == Err::<Seq<u8>, InviteErrorView>(
                    InviteErrorView::InvalidNodeIdHex(error),
                ),
            }
        }),
{
    lemma_no_separator(trimmed(invite), 0);
}

/// The characters that count as white space, by their codes.
pub open spec fn white_space_codes() -> Seq<u32> {
    seq![
        0x9u32,
        0xau32,
        0xbu32,
        0xcu32,
        0xdu32,
        0x20u32,
        0x85u32,
        0xa0u32,
        0x1680u32,
        0x2000u32,
        0x2001u32,
        0x2002u32,
        0x2003u32,
        0x2004u32,
        0x2005u32,
        0x2006u32,
        0x2007u32,
        0x2008u32,
        0x2009u32,
        0x200au32,
        0x2028u32,
        0x2029u32,
        0x202fu32,
        0x205fu32,
        0x3000u32,
    ]
}

/// White space is what Unicode calls white space, 25 characters in all.
pub proof fn law_white_space_is_that_of_unicode(c: char)
    ensures
        is_white_space(c) <==> white_space_codes().contains(c as u32),
{
    let codes = white_space_codes();
    let code = c as u32;
    if is_white_space(c) {
        let at = if code <= 0xd {
            code - 0x9
        } else if code == 0x20 {
            5
        } else if code == 0x85 {
            6
        } else if code == 0xa0 {
            7
        } else if code == 0x1680 {
            8
        } else if code <= 0x200a {
            9 + (code - 0x2000)
        } else if code == 0x2028 {
            20
        } else if code == 0x2029 {
            21
        } else if code == 0x202f {
            22
        } else if code == 0x205f {
            23
        } else {
            24int
        };
        assert(codes[at] == code);
    }
}

/// The invite that a node gives out is read as that node, with or without white space around it.
pub proof fn law_given_invites_are_read(
    node_id: NodeId,
    invite: String,
    pre: Seq<char>,
    post: Seq<char>,
    received: &str,
    result: Result<NodeId, JacquardPeerInviteError>,
)
    requires
        forall|i: int| 0 <= i < pre.len() ==> is_white_space(#[trigger] pre[i]),
        forall|i: int| 0 <= i < post.len() ==> is_white_space(#[trigger] post[i]),
        call_ensures(encode_peer_invite, (node_id,), invite),
        call_ensures(decode_peer_invite, (received,), result),
        received@ == pre + invite@ + post,
    ensures
        result is Ok,
        result->Ok_0.0@ == node_id.0@,
{
    law_invite_round_trip(node_id);
    law_invite_ignores_white_space_around(pre, invite@, post);
}

} // verus!
