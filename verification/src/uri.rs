//! Asset URIs.
//!
//! An asset is named either by a namespaced relative path, written
//! `sys://relative/path` or `usr://relative/path`, or by a 128-bit UUID,
//! written `uuid://<hex>` with the hex part either plain (32 digits) or
//! hyphenated (8-4-4-4-12). The text form is parsed and produced here.

use vstd::prelude::*;
use vstd::string::StringExecFns;
use crate::path::{AssetPath, AssetPathKind, AssetPathV, RelPath, kind_of_protocol, protocol_text};
use crate::text::str_to_chars;

verus! {

/// The value of a hexadecimal digit, accepting both cases.
pub open spec fn hex_digit_value(c: char) -> Option<u8> {
    if '0' <= c && c <= '9' {
        Some((c as u8 - '0' as u8) as u8)
    } else if 'a' <= c && c <= 'f' {
        Some((c as u8 - 'a' as u8 + 10) as u8)
    } else if 'A' <= c && c <= 'F' {
        Some((c as u8 - 'A' as u8 + 10) as u8)
    } else {
        None
    }
}

pub open spec fn is_hex(c: char) -> bool {
    hex_digit_value(c) is Some
}

pub open spec fn all_hex(s: Seq<char>) -> bool {
    forall|i: int| 0 <= i < s.len() ==> is_hex(#[trigger] s[i])
}

/// The number written by a sequence of hex digits, most significant first.
pub open spec fn hex_num(s: Seq<char>) -> nat
    decreases s.len(),
{
    if s.len() == 0 {
        0
    } else {
        hex_num(s.drop_last()) * 16 + match hex_digit_value(s.last()) {
            Some(d) => d as nat,
            None => 0,
        }
    }
}

pub open spec fn pow16(n: nat) -> nat
    decreases n,
{
    if n == 0 {
        1
    } else {
        16 * pow16((n - 1) as nat)
    }
}

pub proof fn lemma_hex_num_bound(s: Seq<char>)
    ensures
        hex_num(s) < pow16(s.len()),
    decreases s.len(),
{
    if s.len() > 0 {
        lemma_hex_num_bound(s.drop_last());
        let h = hex_num(s.drop_last());
        let p = pow16((s.len() - 1) as nat);
        assert(h * 16 <= (p - 1) * 16) by (nonlinear_arith)
            requires
                h < p,
                0 < p,
        ;
    }
}

pub proof fn lemma_pow16_mono(a: nat, b: nat)
    requires
        a <= b,
    ensures
        pow16(a) <= pow16(b),
    decreases b,
{
    if a < b {
        lemma_pow16_mono(a, (b - 1) as nat);
    }
}

/// The lower-case hex character of a digit.
pub open spec fn hex_char(d: u8) -> char {
    if d < 10 {
        (('0' as u8 + d) as char)
    } else {
        (('a' as u8 + (d - 10)) as char)
    }
}

/// The number written as `n` lower-case hex digits, most significant first.
pub open spec fn hex_text(v: nat, n: nat) -> Seq<char>
    decreases n,
{
    if n == 0 {
        Seq::empty()
    } else {
        hex_text(v / 16, (n - 1) as nat) + seq![hex_char((v % 16) as u8)]
    }
}

/// The hex digits of a UUID's text, with hyphens removed: either the text is
/// already 32 plain digits, or it is hyphenated as 8-4-4-4-12.
pub open spec fn uuid_strip_hyphens(s: Seq<char>) -> Option<Seq<char>> {
    if s.len() == 32 {
        Some(s)
    } else if s.len() == 36 && s[8] == '-' && s[13] == '-' && s[18] == '-' && s[23] == '-' {
        Some(
            s.take(8) + s.subrange(9, 13) + s.subrange(14, 18) + s.subrange(19, 23) + s.skip(24),
        )
    } else {
        None
    }
}

/// The value of a UUID's text form, if well formed.
pub open spec fn uuid_value(s: Seq<char>) -> Option<u128> {
    match uuid_strip_hyphens(s) {
        Some(d) => if all_hex(d) {
            Some(hex_num(d) as u128)
        } else {
            None
        },
        None => None,
    }
}

/// The canonical text of a UUID value: hyphenated lower-case hex.
pub open spec fn uuid_text(v: u128) -> Seq<char> {
    let h = hex_text(v as nat, 32);
    h.take(8) + seq!['-'] + h.subrange(8, 12) + seq!['-'] + h.subrange(12, 16) + seq!['-']
        + h.subrange(16, 20) + seq!['-'] + h.skip(20)
}

fn hex_digit_of(c: char) -> (r: Option<u8>)
    ensures
        r == hex_digit_value(c),
{
    if '0' <= c && c <= '9' {
        Some(c as u8 - '0' as u8)
    } else if 'a' <= c && c <= 'f' {
        Some(c as u8 - 'a' as u8 + 10)
    } else if 'A' <= c && c <= 'F' {
        Some(c as u8 - 'A' as u8 + 10)
    } else {
        None
    }
}

fn hex_char_of(d: u8) -> (r: char)
    requires
        d < 16,
    ensures
        r == hex_char(d),
{
    if d < 10 {
        ('0' as u8 + d) as char
    } else {
        ('a' as u8 + (d - 10)) as char
    }
}

/// The value of exactly 32 hex digits, or nothing if a character is not hex.
fn parse_hex_32(d: &Vec<char>) -> (r: Option<u128>)
    requires
        d@.len() == 32,
    ensures
        match r {
            Some(v) => all_hex(d@) && v as nat == hex_num(d@),
            None => !all_hex(d@),
        },
{
    let mut value: u128 = 0;
    let mut i: usize = 0;
    while i < 32
        invariant
            i <= 32,
            d@.len() == 32,
            all_hex(d@.take(i as int)),
            value as nat == hex_num(d@.take(i as int)),
        decreases 32 - i,
    {
        match hex_digit_of(d[i]) {
            Some(dv) => {
                proof {
                    lemma_hex_num_bound(d@.take(i as int));
                    lemma_pow16_mono((i as nat), 31);
                    assert(pow16(31) * 16 == pow16(32));
                    let v_now = value as nat;
                    assert(v_now * 16 <= (pow16(31) - 1) * 16) by (nonlinear_arith)
                        requires
                            v_now < pow16(31),
                            0 < pow16(31),
                    ;
                    assert(pow16(32) == 0x100000000000000000000000000000000) by {
                        reveal_with_fuel(pow16, 33);
                    }
                    assert(d@.take(i + 1 as int).drop_last() =~= d@.take(i as int));
                    assert(d@.take(i + 1 as int).last() == d@[i as int]);
                }
                value = value * 16 + (dv as u128);
                proof {
                    assert(all_hex(d@.take(i + 1 as int)));
                }
                i = i + 1;
            },
            None => {
                return None;
            },
        }
    }
    proof {
        assert(d@.take(32) =~= d@);
    }
    Some(value)
}

/// The `n` low-order nibbles of `v`, written most significant first.
fn hex_chars(v: u128, n: usize) -> (r: Vec<char>)
    requires
        n <= 32,
    ensures
        r@ == hex_text(v as nat, n as nat),
        r@.len() == n,
    decreases n,
{
    if n == 0 {
        let r: Vec<char> = Vec::new();
        proof {
            assert(r@ =~= hex_text(v as nat, 0));
        }
        r
    } else {
        let mut r = hex_chars(v / 16, n - 1);
        let d = (v % 16) as u8;
        r.push(hex_char_of(d));
        proof {
            assert(v as nat % 16 == (v % 16) as nat);
            assert(r@ =~= hex_text(v as nat, n as nat));
        }
        r
    }
}

/// Appends `src[from..to]` to `dst`.
fn push_range(dst: &mut Vec<char>, src: &Vec<char>, from: usize, to: usize)
    requires
        from <= to <= src@.len(),
    ensures
        final(dst)@ == old(dst)@ + src@.subrange(from as int, to as int),
{
    let mut i: usize = from;
    while i < to
        invariant
            from <= i <= to <= src@.len(),
            dst@ == old(dst)@ + src@.subrange(from as int, i as int),
        decreases to - i,
    {
        dst.push(src[i]);
        proof {
            assert(dst@ =~= old(dst)@ + src@.subrange(from as int, i + 1 as int));
        }
        i = i + 1;
    }
}

/// The hyphenated lower-case text of a UUID value, as characters.
fn uuid_chars(v: u128) -> (r: Vec<char>)
    ensures
        r@ == uuid_text(v),
{
    let h = hex_chars(v, 32);
    let mut r: Vec<char> = Vec::new();
    push_range(&mut r, &h, 0, 8);
    r.push('-');
    push_range(&mut r, &h, 8, 12);
    r.push('-');
    push_range(&mut r, &h, 12, 16);
    r.push('-');
    push_range(&mut r, &h, 16, 20);
    r.push('-');
    push_range(&mut r, &h, 20, 32);
    proof {
        assert(h@.subrange(0, 8) =~= h@.take(8));
        assert(h@.subrange(20, 32) =~= h@.skip(20));
        assert(r@ =~= uuid_text(v));
    }
    r
}

/// The UUID written by the given characters, if well formed.
fn uuid_from_chars(s: &Vec<char>) -> (r: Option<u128>)
    ensures
        r == uuid_value(s@),
{
    if s.len() == 32 {
        parse_hex_32(s)
    } else if s.len() == 36 {
        let h0 = s[8];
        let h1 = s[13];
        let h2 = s[18];
        let h3 = s[23];
        if h0 == '-' && h1 == '-' && h2 == '-' && h3 == '-' {
            let mut digits: Vec<char> = Vec::new();
            push_range(&mut digits, s, 0, 8);
            push_range(&mut digits, s, 9, 13);
            push_range(&mut digits, s, 14, 18);
            push_range(&mut digits, s, 19, 23);
            push_range(&mut digits, s, 24, 36);
            proof {
                assert(s@.subrange(0, 8) =~= s@.take(8));
                assert(s@.subrange(24, 36) =~= s@.skip(24));
                assert(digits@ =~= uuid_strip_hyphens(s@).unwrap());
            }
            parse_hex_32(&digits)
        } else {
            None
        }
    } else {
        None
    }
}

/// Why a URI text was rejected.
#[derive(Debug, Copy, Clone, Eq, PartialEq, Structural)]
pub enum UriError {
    /// The text holds no `://` separator.
    Malformed,
    /// The protocol before `://` is none of `sys`, `usr`, `uuid`.
    UnknownProtocol,
    /// The part after `uuid://` is not a well-formed UUID.
    BadUuid,
}

/// Whether a `://` separator starts at position `i`.
pub open spec fn sep_at(s: Seq<char>, i: int) -> bool {
    0 <= i && i + 3 <= s.len() && s[i] == ':' && s[i + 1] == '/' && s[i + 2] == '/'
}

/// The position of the first `://` in the text, if any.
pub open spec fn find_sep(s: Seq<char>) -> Option<int>
    decreases s.len(),
{
    if s.len() < 3 {
        None
    } else if s[0] == ':' && s[1] == '/' && s[2] == '/' {
        Some(0)
    } else {
        match find_sep(s.skip(1)) {
            Some(i) => Some(i + 1),
            None => None,
        }
    }
}

proof fn lemma_find_sep_some(s: Seq<char>, i: int)
    requires
        sep_at(s, i),
        forall|j: int| 0 <= j < i ==> !sep_at(s, j),
    ensures
        find_sep(s) == Some(i),
    decreases i,
{
    if i == 0 {
    } else {
        assert(!sep_at(s, 0));
        assert(sep_at(s.skip(1), i - 1));
        assert forall|j: int| 0 <= j < i - 1 implies !sep_at(s.skip(1), j) by {
            assert(!sep_at(s, j + 1));
        }
        lemma_find_sep_some(s.skip(1), i - 1);
    }
}

proof fn lemma_find_sep_none(s: Seq<char>)
    requires
        forall|j: int| !sep_at(s, j),
    ensures
        find_sep(s) is None,
    decreases s.len(),
{
    if s.len() < 3 {
    } else {
        assert(!sep_at(s, 0));
        assert forall|j: int| !sep_at(s.skip(1), j) by {
            assert(!sep_at(s, j + 1));
        }
        lemma_find_sep_none(s.skip(1));
    }
}

/// The position of the first `://` in `v`, if any.
fn scan_sep(v: &Vec<char>) -> (r: Option<usize>)
    ensures
        match r {
            Some(i) => sep_at(v@, i as int) && find_sep(v@) == Some(i as int),
            None => find_sep(v@) is None,
        },
{
    let n = v.len();
    if n < 3 {
        proof {
            lemma_find_sep_none(v@);
        }
        return None;
    }
    let mut i: usize = 0;
    while i + 2 < n
        invariant
            n == v@.len(),
            3 <= n,
            i + 2 <= n,
            forall|j: int| 0 <= j < i ==> !sep_at(v@, j),
        decreases n - i,
    {
        if v[i] == ':' && v[i + 1] == '/' && v[i + 2] == '/' {
            proof {
                lemma_find_sep_some(v@, i as int);
            }
            return Some(i);
        }
        i = i + 1;
    }
    proof {
        assert forall|j: int| !sep_at(v@, j) by {
            if 0 <= j < i {
            } else {
                assert(j < 0 || j + 3 > v@.len() || !sep_at(v@, j));
            }
        }
        lemma_find_sep_none(v@);
    }
    None
}

/// The scheme prefix of a UUID uri: `uuid://`.
pub open spec fn uuid_scheme() -> Seq<char> {
    seq!['u', 'u', 'i', 'd', ':', '/', '/']
}

/// The `://` separator between protocol and path.
pub open spec fn sep_text() -> Seq<char> {
    seq![':', '/', '/']
}

/// The mathematical value of an [`AssetUri`].
#[verifier::ext_equal]
pub ghost enum AssetUriV {
    AssetPath(AssetPathV),
    Uuid(u128),
}

/// The uri named by the given text: `uuid://<hex>` when the text carries the
/// UUID scheme, otherwise `<sys|usr>://<path>` split at the first `://`.
pub open spec fn parse_uri(s: Seq<char>) -> Result<AssetUriV, UriError> {
    if s.len() >= 7 && s.take(7) == uuid_scheme() {
        match uuid_value(s.skip(7)) {
            Some(v) => Ok(AssetUriV::Uuid(v)),
            None => Err(UriError::BadUuid),
        }
    } else {
        match find_sep(s) {
            Some(i) => match kind_of_protocol(s.take(i)) {
                Some(k) => Ok(AssetUriV::AssetPath(AssetPathV { kind: k, path: s.skip(i + 3) })),
                None => Err(UriError::UnknownProtocol),
            },
            None => Err(UriError::Malformed),
        }
    }
}

/// The canonical text of a uri.
pub open spec fn uri_text(u: AssetUriV) -> Seq<char> {
    match u {
        AssetUriV::AssetPath(p) => protocol_text(p.kind) + sep_text() + p.path,
        AssetUriV::Uuid(v) => uuid_scheme() + uuid_text(v),
    }
}

/// An asset name: a namespaced relative path, or an opaque UUID for
/// synthetically constructed assets with no file backing.
#[derive(Debug)]
pub enum AssetUri {
    AssetPath(AssetPath),
    Uuid(u128),
}

impl View for AssetUri {
    type V = AssetUriV;

    open spec fn view(&self) -> AssetUriV {
        match self {
            AssetUri::AssetPath(p) => AssetUriV::AssetPath(p@),
            AssetUri::Uuid(v) => AssetUriV::Uuid(*v),
        }
    }
}

impl Clone for AssetUri {
    fn clone(&self) -> (r: Self)
        ensures
            r@ == self@,
    {
        match self {
            AssetUri::AssetPath(p) => AssetUri::AssetPath(p.clone()),
            AssetUri::Uuid(v) => AssetUri::Uuid(*v),
        }
    }
}

impl AssetUri {
    /// The uri written as the given text, per [`parse_uri`].
    pub fn from_uri(s: &str) -> (r: Result<AssetUri, UriError>)
        ensures
            match r {
                Ok(u) => parse_uri(s@) == Ok::<AssetUriV, UriError>(u@),
                Err(e) => parse_uri(s@) == Err::<AssetUriV, UriError>(e),
            },
    {
        let chars = str_to_chars(s);
        let n = chars.len();
        if n >= 7 {
            let is_uuid = chars[0] == 'u' && chars[1] == 'u' && chars[2] == 'i' && chars[3] == 'd'
                && chars[4] == ':' && chars[5] == '/' && chars[6] == '/';
            if is_uuid {
                proof {
                    assert(chars@.take(7) =~= uuid_scheme());
                }
                let mut hex: Vec<char> = Vec::new();
                push_range(&mut hex, &chars, 7, n);
                proof {
                    assert(hex@ =~= chars@.skip(7));
                }
                return match uuid_from_chars(&hex) {
                    Some(v) => Ok(AssetUri::Uuid(v)),
                    None => Err(UriError::BadUuid),
                };
            } else {
                proof {
                    if chars@.take(7) == uuid_scheme() {
                        assert(chars@.take(7)[0] == 'u' && chars@.take(7)[1] == 'u'
                            && chars@.take(7)[2] == 'i' && chars@.take(7)[3] == 'd'
                            && chars@.take(7)[4] == ':' && chars@.take(7)[5] == '/'
                            && chars@.take(7)[6] == '/');
                        assert(false);
                    }
                }
            }
        }
        match scan_sep(&chars) {
            Some(i) => {
                let mut proto: Vec<char> = Vec::new();
                push_range(&mut proto, &chars, 0, i);
                proof {
                    assert(proto@ =~= chars@.take(i as int));
                }
                match AssetPathKind::from_protocol(&proto) {
                    Some(k) => {
                        let mut rest: Vec<char> = Vec::new();
                        push_range(&mut rest, &chars, i + 3, n);
                        proof {
                            assert(rest@ =~= chars@.skip(i + 3));
                        }
                        Ok(AssetUri::AssetPath(AssetPath::new(k, RelPath::from_chars(&rest))))
                    },
                    None => Err(UriError::UnknownProtocol),
                }
            },
            None => Err(UriError::Malformed),
        }
    }

    /// The path behind a path-based uri.
    pub fn asset_path(&self) -> (r: Option<&AssetPath>)
        ensures
            match r {
                Some(p) => self@ == AssetUriV::AssetPath(p@),
                None => self@ is Uuid,
            },
    {
        match self {
            AssetUri::AssetPath(p) => Some(p),
            AssetUri::Uuid(_) => None,
        }
    }

    /// The value behind a UUID uri.
    pub fn uuid(&self) -> (r: Option<u128>)
        ensures
            match r {
                Some(v) => self@ == AssetUriV::Uuid(v),
                None => self@ is AssetPath,
            },
    {
        match self {
            AssetUri::AssetPath(_) => None,
            AssetUri::Uuid(v) => Some(*v),
        }
    }

    /// Whether two uris name the same asset location.
    pub fn same(&self, other: &AssetUri) -> (r: bool)
        ensures
            r == (self@ == other@),
    {
        match (self, other) {
            (AssetUri::AssetPath(a), AssetUri::AssetPath(b)) => a.same(b),
            (AssetUri::Uuid(a), AssetUri::Uuid(b)) => a == b,
            _ => false,
        }
    }

    /// The canonical text of the uri, per [`uri_text`].
    pub fn to_uri_string(&self) -> (r: String)
        ensures
            r@ == uri_text(self@),
    {
        match self {
            AssetUri::AssetPath(p) => {
                let mut s = p.kind().protocol().to_owned();
                s.append("://");
                s.append(p.path().as_str());
                proof {
                    reveal_strlit("://");
                    assert("://"@ =~= sep_text());
                    assert(s@ =~= uri_text(self@));
                }
                s
            },
            AssetUri::Uuid(v) => {
                let hex = uuid_chars(*v);
                let mut s: String = "uuid://".to_owned();
                s.append(crate::text::chars_to_string(&hex).as_str());
                proof {
                    reveal_strlit("uuid://");
                    assert("uuid://"@ =~= uuid_scheme());
                    assert(s@ =~= uri_text(self@));
                }
                s
            },
        }
    }
}

} // verus!
