//! Name-service lookups: name hashing, call data for the registry and the
//! resolver, and decoding of their replies.
use vstd::prelude::*;
use vstd::utf8::{decode_utf8, encode_utf8, valid_utf8};
use crate::address::{address_text, reverse_name, reverse_name_text};
use crate::digest::{keccak256, keccak_of, to_hex};
use crate::text::{be_value, prefixed_hex};

verus! {

/// The byte of a dot.
pub const DOT: u8 = 46;

/// Whether `i` is the position of the first dot of `b`.
pub open spec fn is_first_dot(b: Seq<u8>, i: int) -> bool {
    0 <= i < b.len() && b[i] == DOT && forall|k: int| 0 <= k < i ==> b[k] != DOT
}

/// Whether `b` holds no dot.
pub open spec fn dot_free(b: Seq<u8>) -> bool {
    forall|k: int| 0 <= k < b.len() ==> b[k] != DOT
}

/// Thirty-two zero bytes.
pub open spec fn zero_node() -> Seq<u8> {
    Seq::new(32, |i: int| 0u8)
}

/// The node of a non-empty dotted name: for a single label `l`,
/// keccak(zero ++ keccak(l)); for `l.rest`, keccak(node(rest) ++ keccak(l)).
pub open spec fn name_node(b: Seq<u8>) -> Seq<u8>
    decreases b.len(),
{
    if exists|i: int| is_first_dot(b, i) {
        let i = choose|i: int| is_first_dot(b, i);
        keccak_of(name_node(b.subrange(i + 1, b.len() as int)) + keccak_of(b.subrange(0, i)))
    } else {
        keccak_of(zero_node() + keccak_of(b))
    }
}

/// The namehash text of a name: nothing for the empty name, else `0x` and
/// the node in hex.
pub open spec fn namehash_text(name: Seq<char>) -> Option<Seq<char>> {
    if name.len() == 0 { None } else { Some(prefixed_hex(name_node(encode_utf8(name)))) }
}

/// The bytes `b[lo..hi]`.
pub(crate) fn copy_range(b: &[u8], lo: usize, hi: usize) -> (r: Vec<u8>)
    requires
        lo <= hi <= b@.len(),
    ensures
        r@ == b@.subrange(lo as int, hi as int),
{
    let mut out: Vec<u8> = Vec::new();
    let mut i: usize = lo;
    while i < hi
        invariant
            lo <= i <= hi,
            hi <= b@.len(),
            out@ == b@.subrange(lo as int, i as int),
        decreases hi - i,
    {
        out.push(b[i]);
        i = i + 1;
        assert(out@ =~= b@.subrange(lo as int, i as int));
    }
    out
}

/// The concatenation of two byte strings.
fn concat_bytes(a: &[u8], b: &[u8]) -> (r: Vec<u8>)
    ensures
        r@ == a@ + b@,
{
    let mut out = copy_range(a, 0, a.len());
    let mut i: usize = 0;
    while i < b.len()
        invariant
            i <= b@.len(),
            out@ == a@ + b@.subrange(0, i as int),
        decreases b@.len() - i,
    {
        out.push(b[i]);
        i = i + 1;
        assert(out@ =~= a@ + b@.subrange(0, i as int));
    }
    assert(b@.subrange(0, b@.len() as int) == b@);
    assert(a@.subrange(0, a@.len() as int) == a@);
    out
}

/// keccak(node ++ keccak(label)).
fn fold_label(node: &[u8; 32], label: &[u8]) -> (r: [u8; 32])
    ensures
        r@ == keccak_of(node@ + keccak_of(label@)),
{
    let label_hash = keccak256(label);
    let joined = concat_bytes(node, &label_hash);
    keccak256(joined.as_slice())
}

proof fn lemma_first_dot_unique(b: Seq<u8>, i: int, j: int)
    requires
        is_first_dot(b, i),
        is_first_dot(b, j),
    ensures
        i == j,
{
    if i < j {
        assert(b[i] != DOT);
    } else if j < i {
        assert(b[j] != DOT);
    }
}

/// The node of a non-empty dotted name, given as bytes.
pub fn name_node_of(b: &[u8]) -> (r: [u8; 32])
    requires
        b@.len() > 0,
    ensures
        r@ == name_node(b@),
{
    let n = b.len();
    let mut node: [u8; 32] = [0u8; 32];
    let mut end: usize = n;
    let mut j: usize = n;
    let mut first: bool = true;
    assert(node@ == zero_node());
    while j > 0
        invariant
            n == b@.len(),
            j <= end <= n,
            forall|k: int| j <= k < end ==> b@[k] != DOT,
            first ==> end == n && node@ == zero_node(),
            !first ==> end < n && b@[end as int] == DOT && node@ == name_node(b@.subrange(end + 1, n as int)),
        decreases j,
    {
        if b[j - 1] == DOT {
            let label = copy_range(b, j, end);
            let ghost prev = node@;
            node = fold_label(&node, label.as_slice());
            proof {
                let s = b@.subrange(j as int, n as int);
                if first {
                    assert(!exists|i: int| is_first_dot(s, i));
                    assert(s == label@);
                } else {
                    let d = end - j;
                    assert(is_first_dot(s, d as int));
                    assert forall|i: int| is_first_dot(s, i) implies i == d by {
                        lemma_first_dot_unique(s, i, d as int);
                    }
                    assert(s.subrange(d + 1, s.len() as int) == b@.subrange(end + 1, n as int));
                    assert(s.subrange(0, d as int) == label@);
                }
                assert(node@ == name_node(s));
            }
            end = j - 1;
            first = false;
        }
        j = j - 1;
    }
    let label = copy_range(b, 0, end);
    node = fold_label(&node, label.as_slice());
    proof {
        let s = b@;
        assert(s.subrange(0, n as int) == s);
        if first {
            assert(!exists|i: int| is_first_dot(s, i));
            assert(s.subrange(0, end as int) == s);
        } else {
            assert(is_first_dot(s, end as int));
            assert forall|i: int| is_first_dot(s, i) implies i == end by {
                lemma_first_dot_unique(s, i, end as int);
            }
        }
    }
    node
}

/// The namehash of a name as `0x` and 64 hex digits; nothing for the empty name.
pub fn namehash(name: &str) -> (r: Option<String>)
    ensures
        match r {
            Some(t) => namehash_text(name@) == Some(t@) && t@.len() == 66,
            None => namehash_text(name@) is None,
        },
{
    let b = name.as_bytes();
    if b.len() == 0 {
        proof {
            vstd::utf8::encode_utf8_decode_utf8(name@);
        }
        return None;
    }
    proof {
        if name@.len() == 0 {
            assert(encode_utf8(name@) =~= Seq::<u8>::empty());
        }
    }
    let node = name_node_of(b);
    Some(address_text(&node))
}

/// The node of an address's reverse-lookup name.
pub fn reverse_node(addr: &[u8]) -> (r: [u8; 32])
    ensures
        r@ == name_node(encode_utf8(reverse_name_text(addr@))),
{
    let name = reverse_name(addr);
    let b = name.as_str().as_bytes();
    proof {
        assert(name@.len() > 0);
        vstd::utf8::encode_utf8_decode_utf8(name@);
        if b@.len() == 0 {
            assert(decode_utf8(b@) =~= Seq::<char>::empty());
        }
    }
    name_node_of(b)
}

/// The first four bytes of the Keccak-256 of a function signature.
pub open spec fn selector(signature: Seq<char>) -> Seq<u8> {
    keccak_of(encode_utf8(signature)).subrange(0, 4)
}

/// The registry's `resolver(bytes32)` signature.
pub open spec fn resolver_signature() -> Seq<char> {
    "resolver(bytes32)"@
}

/// The resolver's `name(bytes32)` signature.
pub open spec fn name_signature() -> Seq<char> {
    "name(bytes32)"@
}

/// Call data: the selector of a signature, then one 32-byte argument.
fn call_with_node(signature: &str, node: &[u8; 32]) -> (r: Vec<u8>)
    ensures
        r@ == selector(signature@) + node@,
{
    let digest = keccak256(signature.as_bytes());
    let sel = copy_range(&digest, 0, 4);
    concat_bytes(sel.as_slice(), node)
}

/// Call data asking the registry for the resolver of a node.
pub fn resolver_call(node: &[u8; 32]) -> (r: Vec<u8>)
    ensures
        r@ == selector(resolver_signature()) + node@,
{
    call_with_node("resolver(bytes32)", node)
}

/// Call data asking a resolver for the name of a node.
pub fn name_call(node: &[u8; 32]) -> (r: Vec<u8>)
    ensures
        r@ == selector(name_signature()) + node@,
{
    call_with_node("name(bytes32)", node)
}

/// The address of the name-service registry.
pub open spec fn registry_bytes() -> Seq<u8> {
    seq![0u8, 0, 0, 0, 0, 0x0c, 0x2e, 0x07, 0x4e, 0xc6, 0x9a, 0x0d, 0xfb, 0x29, 0x97, 0xba, 0x6c, 0x7d, 0x2e, 0x1e]
}

/// The address of the name-service registry.
pub fn registry_address() -> (r: [u8; 20])
    ensures
        r@ == registry_bytes(),
{
    let r: [u8; 20] = [0u8, 0, 0, 0, 0, 0x0c, 0x2e, 0x07, 0x4e, 0xc6, 0x9a, 0x0d, 0xfb, 0x29, 0x97, 0xba, 0x6c, 0x7d, 0x2e, 0x1e];
    assert(r@ =~= seq![0u8, 0, 0, 0, 0, 0x0c, 0x2e, 0x07, 0x4e, 0xc6, 0x9a, 0x0d, 0xfb, 0x29, 0x97, 0xba, 0x6c, 0x7d, 0x2e, 0x1e]);
    r
}

/// Whether all bytes are zero.
pub open spec fn all_zero(b: Seq<u8>) -> bool {
    forall|k: int| 0 <= k < b.len() ==> b[k] == 0
}

/// The resolver named by a registry reply: the low 20 bytes of its first
/// word, unless the reply is short or that address is zero.
pub open spec fn resolver_of_reply(r: Seq<u8>) -> Option<Seq<u8>> {
    if r.len() >= 32 && !all_zero(r.subrange(12, 32)) { Some(r.subrange(12, 32)) } else { None }
}

/// Reads the resolver address out of a registry reply.
pub fn resolver_from_reply(reply: &[u8]) -> (r: Option<Vec<u8>>)
    ensures
        match r {
            Some(a) => resolver_of_reply(reply@) == Some(a@),
            None => resolver_of_reply(reply@) is None,
        },
{
    if reply.len() < 32 {
        return None;
    }
    let addr = copy_range(reply, 12, 32);
    let mut i: usize = 0;
    while i < 20
        invariant
            i <= 20,
            addr@.len() == 20,
            reply@.len() >= 32,
            addr@ == reply@.subrange(12, 32),
            forall|k: int| 0 <= k < i ==> addr@[k] == 0,
        decreases 20 - i,
    {
        if addr[i] != 0 {
            assert(!all_zero(reply@.subrange(12, 32)));
            return Some(addr);
        }
        i = i + 1;
    }
    None
}

/// Whether the 32-byte word at `at` lies within `r` and fits in 64 bits.
pub open spec fn small_word(r: Seq<u8>, at: int) -> bool {
    0 <= at && at + 32 <= r.len() && all_zero(r.subrange(at, at + 24))
}

/// The value of a word that fits in 64 bits.
pub open spec fn word_value(r: Seq<u8>, at: int) -> nat {
    be_value(r.subrange(at + 24, at + 32))
}

/// The string bytes of an ABI-encoded `string` reply: an offset word, a length
/// word at that offset, then the bytes.
pub open spec fn name_bytes_of_reply(r: Seq<u8>) -> Option<Seq<u8>> {
    if small_word(r, 0) && small_word(r, word_value(r, 0) as int) {
        let off = word_value(r, 0) as int;
        let len = word_value(r, off) as int;
        if off + 32 + len <= r.len() { Some(r.subrange(off + 32, off + 32 + len)) } else { None }
    } else {
        None
    }
}

/// The name in a resolver reply: its string, unless the reply is malformed,
/// the string is empty or it is not UTF-8.
pub open spec fn name_of_reply(r: Seq<u8>) -> Option<Seq<char>> {
    match name_bytes_of_reply(r) {
        Some(b) => if b.len() > 0 && valid_utf8(b) { Some(decode_utf8(b)) } else { None },
        None => None,
    }
}

/// 256 to the power `k`.
pub open spec fn pow256(k: nat) -> nat
    decreases k,
{
    if k == 0 { 1 } else { 256 * pow256((k - 1) as nat) }
}

proof fn lemma_pow256_mono(a: nat, b: nat)
    requires
        a <= b,
    ensures
        pow256(a) <= pow256(b),
    decreases b - a,
{
    if a < b {
        lemma_pow256_mono(a, (b - 1) as nat);
        assert(pow256(b) == 256 * pow256((b - 1) as nat));
    }
}

/// Reads the word at `at` when it fits in 64 bits.
fn read_small_word(r: &[u8], at: usize) -> (v: Option<u64>)
    ensures
        v is Some <==> small_word(r@, at as int),
        v is Some ==> v->Some_0 as nat == word_value(r@, at as int),
{
    if r.len() < 32 || at > r.len() - 32 {
        return None;
    }
    let stop: usize = at + 24;
    let mut i: usize = at;
    while i < stop
        invariant
            at + 32 <= r@.len(),
            stop == at + 24,
            at <= i <= at + 24,
            forall|k: int| at <= k < i ==> r@[k] == 0,
        decreases at + 24 - i,
    {
        if r[i] != 0 {
            assert(r@.subrange(at as int, at + 24)[i - at] == r@[i as int]);
            assert(!all_zero(r@.subrange(at as int, at + 24)));
            return None;
        }
        i = i + 1;
    }
    assert(all_zero(r@.subrange(at as int, at + 24)));
    let mut v: u64 = 0;
    let mut k: usize = 0;
    proof {
        reveal_with_fuel(pow256, 9);
    }
    while k < 8
        invariant
            at + 32 <= r@.len(),
            stop == at + 24,
            r@.len() <= usize::MAX,
            k <= 8,
            v as nat == be_value(r@.subrange(at + 24, at + 24 + k)),
            be_value(r@.subrange(at + 24, at + 24 + k)) < pow256(k as nat),
            pow256(8) == 0x1_0000_0000_0000_0000,
        decreases 8 - k,
    {
        let byte = r[stop + k];
        let ghost s = r@.subrange(at + 24, at + 24 + k + 1);
        assert(s.drop_last() == r@.subrange(at + 24, at + 24 + k));
        let ghost p = pow256(k as nat);
        proof {
            lemma_pow256_mono((k + 1) as nat, 8);
            assert(pow256((k + 1) as nat) == 256 * p);
            assert(p * 256 <= pow256(8));
        }
        assert(v * 256 + byte < p * 256) by (nonlinear_arith)
            requires
                v < p,
                byte < 256,
        ;
        assert(pow256((k + 1) as nat) == 256 * p);
        v = v * 256 + byte as u64;
        k = k + 1;
    }
    Some(v)
}

/// Relies on String::from_utf8: it succeeds exactly on valid UTF-8 and then
/// holds the decoded characters.
#[verifier::external_body]
fn utf8_string(b: Vec<u8>) -> (r: Option<String>)
    ensures
        r is Some <==> valid_utf8(b@),
        r is Some ==> r->Some_0@ == decode_utf8(b@),
{
    String::from_utf8(b).ok()
}

/// Reads the name out of a resolver reply.
pub fn name_from_reply(reply: &[u8]) -> (r: Option<String>)
    ensures
        match r {
            Some(n) => name_of_reply(reply@) == Some(n@),
            None => name_of_reply(reply@) is None,
        },
{
    let off = match read_small_word(reply, 0) {
        Some(v) => v,
        None => return None,
    };
    if off as u128 > reply.len() as u128 {
        return None;
    }
    let off = off as usize;
    let len = match read_small_word(reply, off) {
        Some(v) => v,
        None => return None,
    };
    if len as u128 > (reply.len() - off - 32) as u128 {
        return None;
    }
    let len = len as usize;
    let bytes = copy_range(reply, off + 32, off + 32 + len);
    if len == 0 {
        return None;
    }
    utf8_string(bytes)
}

/// The display name of a sender: the resolved name, or else the fallback.
pub open spec fn display_of(resolved: Option<Seq<char>>, fallback: Seq<char>) -> Seq<char> {
    match resolved {
        Some(n) => n,
        None => fallback,
    }
}

/// Where a reverse lookup stands.
#[derive(Debug, Clone, Copy, PartialEq, Eq, Structural)]
pub enum LookupStage {
    /// Waiting for the registry's reply.
    Registry,
    /// Waiting for the resolver's reply.
    Resolver,
    /// Over.
    Finished,
}

/// What a lookup asks for next.
pub enum LookupAction {
    /// Make a read-only call of `data` on the contract at `to`.
    Call { to: Vec<u8>, data: Vec<u8> },
    /// The lookup is over, with the name it found, if any.
    Done(Option<String>),
}

/// A reverse lookup of an address's name: the registry is asked for the
/// resolver of the address's reverse node, then that resolver for its name.
/// A failed call, a zero resolver or an empty name ends it with no name.
pub struct NameLookup {
    node: [u8; 32],
    stage: LookupStage,
}

/// Whether an action is the call of `data` on `to`.
pub open spec fn is_call(a: LookupAction, to: Seq<u8>, data: Seq<u8>) -> bool {
    match a {
        LookupAction::Call { to: t, data: d } => t@ == to && d@ == data,
        LookupAction::Done(_) => false,
    }
}

/// Whether an action ends the lookup with `name`.
pub open spec fn is_done(a: LookupAction, name: Option<Seq<char>>) -> bool {
    match a {
        LookupAction::Call { .. } => false,
        LookupAction::Done(n) => match n {
            Some(x) => name == Some(x@),
            None => name is None,
        },
    }
}

impl NameLookup {
    /// The reverse node being looked up.
    pub closed spec fn node(&self) -> Seq<u8> {
        self.node@
    }

    /// Where the lookup stands.
    pub closed spec fn stage(&self) -> LookupStage {
        self.stage
    }

    /// Starts a lookup for an address: the first action asks the registry.
    pub fn start(address: &[u8]) -> (r: (NameLookup, LookupAction))
        ensures
            r.0.node() == name_node(encode_utf8(reverse_name_text(address@))),
            r.0.stage() == LookupStage::Registry,
            is_call(r.1, registry_bytes(), selector(resolver_signature()) + r.0.node()),
    {
        let node = reverse_node(address);
        let data = resolver_call(&node);
        let to = registry_address();
        let to_vec = copy_range(&to, 0, 20);
        assert(to@.subrange(0, 20) == to@);
        (NameLookup { node, stage: LookupStage::Registry }, LookupAction::Call { to: to_vec, data })
    }

    /// Takes the reply to the last call (nothing where the call failed) and
    /// says what to do next.
    pub fn advance(&mut self, reply: Option<Vec<u8>>) -> (r: LookupAction)
        requires
            old(self).stage() != LookupStage::Finished,
        ensures
            final(self).node() == old(self).node(),
            old(self).stage() == LookupStage::Registry ==> match reply {
                None => is_done(r, None) && final(self).stage() == LookupStage::Finished,
                Some(b) => match resolver_of_reply(b@) {
                    None => is_done(r, None) && final(self).stage() == LookupStage::Finished,
                    Some(a) => is_call(r, a, selector(name_signature()) + old(self).node())
                        && final(self).stage() == LookupStage::Resolver,
                },
            },
            old(self).stage() == LookupStage::Resolver ==> final(self).stage() == LookupStage::Finished
                && is_done(r, match reply {
                    None => None,
                    Some(b) => name_of_reply(b@),
                }),
    {
        match self.stage {
            LookupStage::Registry => {
                let found = match reply {
                    Some(b) => resolver_from_reply(b.as_slice()),
                    None => None,
                };
                match found {
                    Some(to) => {
                        self.stage = LookupStage::Resolver;
                        LookupAction::Call { to, data: name_call(&self.node) }
                    },
                    None => {
                        self.stage = LookupStage::Finished;
                        LookupAction::Done(None)
                    },
                }
            },
            _ => {
                self.stage = LookupStage::Finished;
                match reply {
                    Some(b) => LookupAction::Done(name_from_reply(b.as_slice())),
                    None => LookupAction::Done(None),
                }
            },
        }
    }
}

} // verus!
