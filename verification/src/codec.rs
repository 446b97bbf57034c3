//! The wire encoding the protocol messages travel in.
//!
//! A message is flattened into a list of self-describing atoms (integers,
//! strings, byte blobs), and the atom list becomes bytes with every
//! integer little-endian and every list length-prefixed. Encoding then
//! decoding any atom list yields the original list
//! (`lemma_payload_round`).

use vstd::prelude::*;

use crate::chars::string_from_chars;
use crate::protocol::{
    ClientMessage, CopyModeAction, Direction, MouseEventKind, ServerMessage, SessionInfo,
    SessionTarget,
};

verus! {

/// One wire atom: an unsigned integer, a string, or a byte blob.
#[derive(Debug, Clone)]
pub enum Atom {
    U(u128),
    S(String),
    B(Vec<u8>),
}

/// Mathematical model of an atom.
pub enum AtomV {
    U(u128),
    S(Seq<char>),
    B(Seq<u8>),
}

impl View for Atom {
    type V = AtomV;

    open spec fn view(&self) -> AtomV {
        match self {
            Atom::U(x) => AtomV::U(*x),
            Atom::S(s) => AtomV::S(s@),
            Atom::B(b) => AtomV::B(b@),
        }
    }
}

/// 256 to the `n`-th power.
pub open spec fn pow256(n: nat) -> int
    decreases n,
{
    if n == 0 {
        1
    } else {
        256 * pow256((n - 1) as nat)
    }
}

/// A nonnegative integer as `n` little-endian bytes.
pub open spec fn enc_le(x: int, n: nat) -> Seq<u8>
    decreases n,
{
    if n == 0 {
        Seq::empty()
    } else {
        seq![(x % 256) as u8] + enc_le(x / 256, (n - 1) as nat)
    }
}

/// The value of `n` little-endian bytes starting at `i`.
pub open spec fn rd_le(b: Seq<u8>, i: int, n: nat) -> int
    decreases n,
{
    if n == 0 {
        0
    } else {
        b[i] + 256 * rd_le(b, i + 1, (n - 1) as nat)
    }
}

pub proof fn lemma_enc_le_len(x: int, n: nat)
    ensures
        enc_le(x, n).len() == n,
    decreases n,
{
    if n > 0 {
        lemma_enc_le_len(x / 256, (n - 1) as nat);
    }
}

pub proof fn lemma_pow256_pos(n: nat)
    ensures
        pow256(n) >= 1,
    decreases n,
{
    if n > 0 {
        lemma_pow256_pos((n - 1) as nat);
    }
}

/// Reading back `n` little-endian bytes returns the encoded value.
pub proof fn lemma_le_round(b: Seq<u8>, i: int, x: int, n: nat)
    requires
        0 <= x < pow256(n),
        0 <= i,
        i + n <= b.len(),
        b.subrange(i, i + n) == enc_le(x, n),
    ensures
        rd_le(b, i, n) == x,
    decreases n,
{
    lemma_enc_le_len(x, n);
    if n > 0 {
        let sub = b.subrange(i, i + n);
        assert(sub[0] == b[i]);
        assert(b[i] == (x % 256) as u8);
        lemma_enc_le_len(x / 256, (n - 1) as nat);
        assert(b.subrange(i + 1, i + n) =~= sub.subrange(1, n as int));
        assert(sub.subrange(1, n as int) =~= enc_le(x / 256, (n - 1) as nat));
        lemma_pow256_pos((n - 1) as nat);
        assert(x / 256 < pow256((n - 1) as nat)) by {
            if x / 256 >= pow256((n - 1) as nat) {
                assert(x >= 256 * pow256((n - 1) as nat));
            }
        }
        lemma_le_round(b, i + 1, x / 256, (n - 1) as nat);
    }
}

/// A little-endian read is bounded by the byte count.
pub proof fn lemma_rd_le_bound(b: Seq<u8>, i: int, n: nat)
    requires
        0 <= i,
        i + n <= b.len(),
    ensures
        0 <= rd_le(b, i, n) < pow256(n),
    decreases n,
{
    if n > 0 {
        lemma_rd_le_bound(b, i + 1, (n - 1) as nat);
    }
}

/// The concrete small powers the codec uses.
pub proof fn lemma_pow256_values()
    ensures
        pow256(4) == 0x1_0000_0000,
        pow256(16) == 0x1_0000_0000_0000_0000_0000_0000_0000_0000,
{
    assert(pow256(0) == 1);
    assert(pow256(1) == 256);
    assert(pow256(2) == 0x1_0000);
    assert(pow256(3) == 0x100_0000);
    assert(pow256(4) == 0x1_0000_0000);
    assert(pow256(5) == 0x100_0000_0000);
    assert(pow256(6) == 0x1_0000_0000_0000);
    assert(pow256(7) == 0x100_0000_0000_0000);
    assert(pow256(8) == 0x1_0000_0000_0000_0000);
    assert(pow256(9) == 0x100_0000_0000_0000_0000);
    assert(pow256(10) == 0x1_0000_0000_0000_0000_0000);
    assert(pow256(11) == 0x100_0000_0000_0000_0000_0000);
    assert(pow256(12) == 0x1_0000_0000_0000_0000_0000_0000);
    assert(pow256(13) == 0x100_0000_0000_0000_0000_0000_0000);
    assert(pow256(14) == 0x1_0000_0000_0000_0000_0000_0000_0000);
    assert(pow256(15) == 0x100_0000_0000_0000_0000_0000_0000_0000);
    assert(pow256(16) == 0x1_0000_0000_0000_0000_0000_0000_0000_0000);
}

/// A string's characters, four bytes each.
pub open spec fn enc_chars(s: Seq<char>) -> Seq<u8>
    decreases s.len(),
{
    if s.len() == 0 {
        Seq::empty()
    } else {
        enc_le((s[0] as u32) as int, 4) + enc_chars(s.drop_first())
    }
}

pub proof fn lemma_enc_chars_len(s: Seq<char>)
    ensures
        enc_chars(s).len() == 4 * s.len(),
    decreases s.len(),
{
    if s.len() > 0 {
        lemma_enc_le_len((s[0] as u32) as int, 4);
        lemma_enc_chars_len(s.drop_first());
    }
}

/// One atom's wire form: a kind byte, then the payload; strings and blobs
/// carry a four-byte length.
pub open spec fn enc_atom(a: AtomV) -> Seq<u8> {
    match a {
        AtomV::U(x) => seq![0u8] + enc_le(x as int, 16),
        AtomV::S(s) => seq![1u8] + enc_le(s.len() as int, 4) + enc_chars(s),
        AtomV::B(b) => seq![2u8] + enc_le(b.len() as int, 4) + b,
    }
}

/// An atom list's wire form: a four-byte count, then each atom.
pub open spec fn enc_atoms_list(atoms: Seq<AtomV>) -> Seq<u8>
    decreases atoms.len(),
{
    if atoms.len() == 0 {
        Seq::empty()
    } else {
        enc_atom(atoms[0]) + enc_atoms_list(atoms.drop_first())
    }
}

/// The full payload: count plus atoms.
pub open spec fn enc_payload(atoms: Seq<AtomV>) -> Seq<u8> {
    enc_le(atoms.len() as int, 4) + enc_atoms_list(atoms)
}


/// Parse the characters of a string: `n` code points of four bytes each.
pub open spec fn rd_chars(b: Seq<u8>, i: int, n: nat) -> Option<Seq<char>>
    decreases n,
{
    if n == 0 {
        Some(Seq::empty())
    } else if i + 4 <= b.len() && 0 <= i {
        let cp = rd_le(b, i, 4);
        if cp < 0x1_0000_0000 && crate::chars::valid_scalar(cp as u32) {
            match rd_chars(b, i + 4, (n - 1) as nat) {
                Some(rest) => Some(seq![(cp as u32) as char] + rest),
                None => None,
            }
        } else {
            None
        }
    } else {
        None
    }
}

/// Parse one atom at `i`: the kind byte then the payload.
pub open spec fn rd_atom(b: Seq<u8>, i: int) -> Option<(AtomV, int)> {
    if 0 <= i && i < b.len() {
        let kind = b[i];
        if kind == 0 {
            if i + 17 <= b.len() {
                Some((AtomV::U(rd_le(b, i + 1, 16) as u128), i + 17))
            } else {
                None
            }
        } else if kind == 1 {
            if i + 5 <= b.len() {
                let n = rd_le(b, i + 1, 4);
                if i + 5 + 4 * n <= b.len() {
                    match rd_chars(b, i + 5, n as nat) {
                        Some(s) => Some((AtomV::S(s), i + 5 + 4 * n)),
                        None => None,
                    }
                } else {
                    None
                }
            } else {
                None
            }
        } else if kind == 2 {
            if i + 5 <= b.len() {
                let n = rd_le(b, i + 1, 4);
                if i + 5 + n <= b.len() {
                    Some((AtomV::B(b.subrange(i + 5, i + 5 + n)), i + 5 + n))
                } else {
                    None
                }
            } else {
                None
            }
        } else {
            None
        }
    } else {
        None
    }
}

/// Parse `n` atoms starting at `i`.
pub open spec fn rd_atoms(b: Seq<u8>, i: int, n: nat) -> Option<(Seq<AtomV>, int)>
    decreases n,
{
    if n == 0 {
        Some((Seq::empty(), i))
    } else {
        match rd_atom(b, i) {
            Some((a, j)) => match rd_atoms(b, j, (n - 1) as nat) {
                Some((rest, k)) => Some((seq![a] + rest, k)),
                None => None,
            },
            None => None,
        }
    }
}

/// Parse a whole payload: the count, then exactly that many atoms filling
/// the buffer.
pub open spec fn dec_payload(b: Seq<u8>) -> Option<Seq<AtomV>> {
    if b.len() >= 4 {
        let n = rd_le(b, 0, 4);
        match rd_atoms(b, 4, n as nat) {
            Some((atoms, end)) => if end == b.len() {
                Some(atoms)
            } else {
                None
            },
            None => None,
        }
    } else {
        None
    }
}

/// Reading back an encoded character sequence returns it.
pub proof fn lemma_chars_round(b: Seq<u8>, i: int, s: Seq<char>)
    requires
        0 <= i,
        i + 4 * s.len() <= b.len(),
        b.subrange(i, i + 4 * s.len()) == enc_chars(s),
    ensures
        rd_chars(b, i, s.len() as nat) == Some(s),
    decreases s.len(),
{
    lemma_enc_chars_len(s);
    lemma_pow256_values();
    if s.len() > 0 {
        let c0 = s[0];
        lemma_enc_le_len((c0 as u32) as int, 4);
        lemma_enc_chars_len(s.drop_first());
        assert(b.subrange(i, i + 4) =~= enc_chars(s).subrange(0, 4));
        assert(enc_chars(s).subrange(0, 4) =~= enc_le((c0 as u32) as int, 4));
        vstd::utf8::char_is_scalar(c0);
        lemma_le_round(b, i, (c0 as u32) as int, 4);
        vstd::utf8::char_u32_cast(c0, c0 as u32);
        assert(b.subrange(i + 4, i + 4 + 4 * s.drop_first().len()) =~= enc_chars(s).subrange(
            4,
            enc_chars(s).len() as int,
        ));
        assert(enc_chars(s).subrange(4, enc_chars(s).len() as int) =~= enc_chars(s.drop_first()));
        lemma_chars_round(b, i + 4, s.drop_first());
        assert(seq![c0] + s.drop_first() =~= s);
    }
}

/// A representable atom: lengths fit their four-byte prefixes.
pub open spec fn atom_wf(a: AtomV) -> bool {
    match a {
        AtomV::U(_) => true,
        AtomV::S(s) => s.len() < 0x1_0000_0000,
        AtomV::B(b) => b.len() < 0x1_0000_0000,
    }
}

/// Reading back an encoded atom returns it and lands just past it.
pub proof fn lemma_atom_round(b: Seq<u8>, i: int, a: AtomV)
    requires
        atom_wf(a),
        0 <= i,
        i + enc_atom(a).len() <= b.len(),
        b.subrange(i, i + enc_atom(a).len()) == enc_atom(a),
    ensures
        rd_atom(b, i) == Some((a, i + enc_atom(a).len())),
{
    lemma_pow256_values();
    let e = enc_atom(a);
    assert(b[i] == e[0]);
    match a {
        AtomV::U(x) => {
            lemma_enc_le_len(x as int, 16);
            assert(b.subrange(i + 1, i + 17) =~= e.subrange(1, 17));
            assert(e.subrange(1, 17) =~= enc_le(x as int, 16));
            lemma_le_round(b, i + 1, x as int, 16);
        },
        AtomV::S(s) => {
            lemma_enc_le_len(s.len() as int, 4);
            lemma_enc_chars_len(s);
            assert(b.subrange(i + 1, i + 5) =~= e.subrange(1, 5));
            assert(e.subrange(1, 5) =~= enc_le(s.len() as int, 4));
            lemma_le_round(b, i + 1, s.len() as int, 4);
            assert(b.subrange(i + 5, i + 5 + 4 * s.len()) =~= e.subrange(5, e.len() as int));
            assert(e.subrange(5, e.len() as int) =~= enc_chars(s));
            lemma_chars_round(b, i + 5, s);
        },
        AtomV::B(blob) => {
            lemma_enc_le_len(blob.len() as int, 4);
            assert(b.subrange(i + 1, i + 5) =~= e.subrange(1, 5));
            assert(e.subrange(1, 5) =~= enc_le(blob.len() as int, 4));
            lemma_le_round(b, i + 1, blob.len() as int, 4);
            assert(b.subrange(i + 5, i + 5 + blob.len()) =~= e.subrange(5, e.len() as int));
            assert(e.subrange(5, e.len() as int) =~= blob);
        },
    }
}

pub proof fn lemma_enc_atoms_list_len(atoms: Seq<AtomV>)
    ensures
        enc_atoms_list(atoms).len() >= 0,
    decreases atoms.len(),
{
}

/// Reading back an encoded atom list returns it.
pub proof fn lemma_atoms_round(b: Seq<u8>, i: int, atoms: Seq<AtomV>)
    requires
        forall|k: int| 0 <= k < atoms.len() ==> atom_wf(#[trigger] atoms[k]),
        0 <= i,
        i + enc_atoms_list(atoms).len() <= b.len(),
        b.subrange(i, i + enc_atoms_list(atoms).len()) == enc_atoms_list(atoms),
    ensures
        rd_atoms(b, i, atoms.len() as nat) == Some(
            (atoms, i + enc_atoms_list(atoms).len() as int),
        ),
    decreases atoms.len(),
{
    if atoms.len() > 0 {
        let a0 = atoms[0];
        let e0 = enc_atom(a0);
        let erest = enc_atoms_list(atoms.drop_first());
        assert(enc_atoms_list(atoms) =~= e0 + erest);
        assert(b.subrange(i, i + e0.len() as int) =~= enc_atoms_list(atoms).subrange(
            0,
            e0.len() as int,
        ));
        assert(enc_atoms_list(atoms).subrange(0, e0.len() as int) =~= e0);
        lemma_atom_round(b, i, a0);
        assert(b.subrange(i + e0.len(), i + e0.len() + erest.len()) =~= enc_atoms_list(
            atoms,
        ).subrange(e0.len() as int, enc_atoms_list(atoms).len() as int));
        assert(enc_atoms_list(atoms).subrange(e0.len() as int, enc_atoms_list(atoms).len() as int)
            =~= erest);
        assert forall|k: int| 0 <= k < atoms.drop_first().len() implies atom_wf(
            #[trigger] atoms.drop_first()[k],
        ) by {
            assert(atoms.drop_first()[k] == atoms[k + 1]);
        }
        lemma_atoms_round(b, i + e0.len() as int, atoms.drop_first());
        assert(seq![a0] + atoms.drop_first() =~= atoms);
    }
}

/// Decoding an encoded payload returns the original atoms, provided the
/// list is short enough for its four-byte count.
pub proof fn lemma_payload_round(atoms: Seq<AtomV>)
    requires
        atoms.len() < 0x1_0000_0000,
        forall|k: int| 0 <= k < atoms.len() ==> atom_wf(#[trigger] atoms[k]),
    ensures
        dec_payload(enc_payload(atoms)) == Some(atoms),
{
    lemma_pow256_values();
    let b = enc_payload(atoms);
    lemma_enc_le_len(atoms.len() as int, 4);
    assert(b.subrange(0, 4) =~= enc_le(atoms.len() as int, 4));
    lemma_le_round(b, 0, atoms.len() as int, 4);
    assert(b.subrange(4, b.len() as int) =~= enc_atoms_list(atoms));
    lemma_atoms_round(b, 4, atoms);
}


/// The models of a list of atoms.
pub open spec fn atoms_view(v: Seq<Atom>) -> Seq<AtomV> {
    v.map_values(|a: Atom| a@)
}

/// Appending one encoded character extends the encoding.
pub proof fn lemma_enc_chars_snoc(s: Seq<char>, c: char)
    ensures
        enc_chars(s.push(c)) == enc_chars(s) + enc_le((c as u32) as int, 4),
    decreases s.len(),
{
    if s.len() == 0 {
        assert(s.push(c)[0] == c);
        assert(s.push(c).drop_first() =~= Seq::<char>::empty());
        assert(enc_chars(Seq::<char>::empty()) =~= Seq::<u8>::empty());
        assert(enc_chars(s.push(c)) =~= enc_chars(s) + enc_le((c as u32) as int, 4));
    } else {
        assert(s.push(c)[0] == s[0]);
        assert(s.push(c).drop_first() =~= s.drop_first().push(c));
        lemma_enc_chars_snoc(s.drop_first(), c);
        assert(enc_chars(s.push(c)) =~= enc_chars(s) + enc_le((c as u32) as int, 4));
    }
}

/// Append the `n`-byte little-endian form of `x`.
fn put_le(out: &mut Vec<u8>, x: u128, n: usize)
    requires
        (x as int) < pow256(n as nat),
    ensures
        final(out)@ == old(out)@ + enc_le(x as int, n as nat),
    decreases n,
{
    if n == 0 {
        proof {
            assert(old(out)@ + enc_le(x as int, 0) =~= old(out)@);
        }
        return ;
    }
    out.push((x % 256) as u8);
    proof {
        lemma_pow256_pos((n - 1) as nat);
        assert((x as int) / 256 < pow256((n - 1) as nat)) by {
            if (x as int) / 256 >= pow256((n - 1) as nat) {
                assert((x as int) >= 256 * pow256((n - 1) as nat));
            }
        }
    }
    put_le(out, x / 256, n - 1);
    proof {
        assert(out@ =~= old(out)@ + enc_le(x as int, n as nat));
    }
}

/// Append the four-byte characters of a string's tail from `i` on.
fn put_chars_from(out: &mut Vec<u8>, s: &str, i: usize)
    requires
        i <= s@.len(),
    ensures
        final(out)@ == old(out)@ + enc_chars(s@.subrange(i as int, s@.len() as int)),
    decreases s@.len() - i,
{
    let n = s.unicode_len();
    if i >= n {
        proof {
            assert(s@.subrange(i as int, s@.len() as int) =~= Seq::<char>::empty());
            assert(old(out)@ + enc_chars(s@.subrange(i as int, s@.len() as int)) =~= old(out)@);
        }
        return ;
    }
    let c = s.get_char(i);
    proof {
        vstd::utf8::char_is_scalar(c);
        lemma_pow256_values();
    }
    put_le(out, (c as u32) as u128, 4);
    put_chars_from(out, s, i + 1);
    proof {
        let tail = s@.subrange(i as int, s@.len() as int);
        assert(tail[0] == c);
        assert(tail.drop_first() =~= s@.subrange(i + 1 as int, s@.len() as int));
        assert(out@ =~= old(out)@ + enc_chars(tail));
    }
}

/// Append one atom's wire form.
fn put_atom(out: &mut Vec<u8>, a: &Atom)
    requires
        atom_wf(a@),
    ensures
        final(out)@ == old(out)@ + enc_atom(a@),
{
    proof {
        lemma_pow256_values();
    }
    match a {
        Atom::U(x) => {
            out.push(0);
            put_le(out, *x, 16);
            proof {
                assert(out@ =~= old(out)@ + enc_atom(a@));
            }
        },
        Atom::S(st) => {
            out.push(1);
            let len = st.as_str().unicode_len();
            put_le(out, len as u128, 4);
            put_chars_from(out, st.as_str(), 0);
            proof {
                assert(st@.subrange(0, st@.len() as int) =~= st@);
                assert(out@ =~= old(out)@ + enc_atom(a@));
            }
        },
        Atom::B(bl) => {
            out.push(2);
            put_le(out, bl.len() as u128, 4);
            let m = bl.len();
            let mut k: usize = 0;
            let ghost mid = out@;
            while k < m
                invariant
                    m == bl@.len(),
                    k <= m,
                    out@ =~= mid + bl@.subrange(0, k as int),
                decreases m - k,
            {
                out.push(bl[k]);
                proof {
                    assert(out@ =~= mid + bl@.subrange(0, k + 1 as int));
                }
                k += 1;
            }
            proof {
                assert(bl@.subrange(0, m as int) =~= bl@);
                assert(out@ =~= old(out)@ + enc_atom(a@));
            }
        },
    }
}

/// Appending one encoded atom extends the list encoding.
pub proof fn lemma_enc_atoms_snoc(s: Seq<AtomV>, a: AtomV)
    ensures
        enc_atoms_list(s.push(a)) == enc_atoms_list(s) + enc_atom(a),
    decreases s.len(),
{
    if s.len() == 0 {
        assert(s.push(a)[0] == a);
        assert(s.push(a).drop_first() =~= Seq::<AtomV>::empty());
        assert(enc_atoms_list(Seq::<AtomV>::empty()) =~= Seq::<u8>::empty());
        assert(enc_atoms_list(s.push(a)) =~= enc_atoms_list(s) + enc_atom(a));
    } else {
        assert(s.push(a)[0] == s[0]);
        assert(s.push(a).drop_first() =~= s.drop_first().push(a));
        lemma_enc_atoms_snoc(s.drop_first(), a);
        assert(enc_atoms_list(s.push(a)) =~= enc_atoms_list(s) + enc_atom(a));
    }
}

/// Encode a list of atoms as one payload: count, then each atom.
pub fn encode_atoms(atoms: &Vec<Atom>) -> (r: Vec<u8>)
    requires
        atoms@.len() < 0x1_0000_0000,
        forall|k: int| 0 <= k < atoms@.len() ==> atom_wf(#[trigger] atoms@[k]@),
    ensures
        r@ == enc_payload(atoms_view(atoms@)),
{
    proof {
        lemma_pow256_values();
    }
    let mut out: Vec<u8> = Vec::new();
    put_le(&mut out, atoms.len() as u128, 4);
    let n = atoms.len();
    let mut i: usize = 0;
    let ghost mid = out@;
    while i < n
        invariant
            n == atoms@.len(),
            i <= n,
            forall|k: int| 0 <= k < atoms@.len() ==> atom_wf(#[trigger] atoms@[k]@),
            out@ =~= mid + enc_atoms_list(atoms_view(atoms@).subrange(0, i as int)),
        decreases n - i,
    {
        put_atom(&mut out, &atoms[i]);
        proof {
            lemma_enc_atoms_snoc(atoms_view(atoms@).subrange(0, i as int), atoms@[i as int]@);
            assert(atoms_view(atoms@).subrange(0, i as int).push(atoms@[i as int]@)
                =~= atoms_view(atoms@).subrange(0, i + 1 as int));
            assert(out@ =~= mid + enc_atoms_list(atoms_view(atoms@).subrange(0, i + 1 as int)));
        }
        i += 1;
    }
    proof {
        assert(atoms_view(atoms@).subrange(0, n as int) =~= atoms_view(atoms@));
        assert(out@ =~= enc_payload(atoms_view(atoms@)));
    }
    out
}

/// Small powers stay below the sixteen-byte bound.
pub proof fn lemma_pow256_mono(n: nat)
    requires
        n <= 15,
    ensures
        256 * pow256(n) <= pow256(16),
    decreases 15 - n,
{
    if n == 15 {
    } else {
        lemma_pow256_mono((n + 1) as nat);
        lemma_pow256_pos(n);
        assert(256 * pow256(n) == pow256((n + 1) as nat));
        assert(pow256((n + 1) as nat) <= 256 * pow256((n + 1) as nat)) by (nonlinear_arith)
            requires
                pow256((n + 1) as nat) >= 1,
        ;
    }
}

/// Read `n` little-endian bytes at `i`.
fn get_le(b: &[u8], i: usize, n: usize) -> (r: Option<(u128, usize)>)
    requires
        n <= 16,
    ensures
        match r {
            Some((x, j)) => i + n <= b@.len() && j == i + n && x as int == rd_le(
                b@,
                i as int,
                n as nat,
            ),
            None => i + n > b@.len(),
        },
    decreases n,
{
    if n == 0 {
        if i <= b.len() {
            return Some((0, i));
        } else {
            return None;
        }
    }
    if i >= b.len() {
        return None;
    }
    match get_le(b, i + 1, n - 1) {
        Some((hi, j)) => {
            proof {
                lemma_rd_le_bound(b@, i + 1, (n - 1) as nat);
                lemma_pow256_mono((n - 1) as nat);
                lemma_pow256_values();
            }
            Some((b[i] as u128 + 256 * hi, j))
        },
        None => None,
    }
}

/// Read `n` four-byte characters at `i`.
fn get_chars(b: &[u8], i: usize, n: usize) -> (r: Option<(Vec<char>, usize)>)
    ensures
        match r {
            Some((v, j)) => rd_chars(b@, i as int, n as nat) == Some(v@) && j as int == i + 4 * n
                && i + 4 * n <= b@.len(),
            None => rd_chars(b@, i as int, n as nat) is None || i + 4 * n > b@.len(),
        },
    decreases n,
{
    if n == 0 {
        if i <= b.len() {
            let v: Vec<char> = Vec::new();
            proof {
                assert(rd_chars(b@, i as int, 0) == Some(Seq::<char>::empty()));
                assert(v@ =~= Seq::<char>::empty());
            }
            return Some((v, i));
        } else {
            return None;
        }
    }
    if b.len() < 4 || i > b.len() - 4 {
        return None;
    }
    let cp128 = match get_le(b, i, 4) {
        Some((x, _)) => x,
        None => {
            return None;
        },
    };
    proof {
        lemma_rd_le_bound(b@, i as int, 4);
        lemma_pow256_values();
    }
    let cp: u32 = cp128 as u32;
    let c = match crate::chars::char_from_u32(cp) {
        Some(c) => c,
        None => {
            return None;
        },
    };
    match get_chars(b, i + 4, n - 1) {
        Some((rest, j)) => {
            let mut v: Vec<char> = Vec::new();
            v.push(c);
            let mut rest_mut = rest;
            v.append(&mut rest_mut);
            proof {
                assert(v@ =~= seq![c] + rd_chars(b@, i + 4 as int, (n - 1) as nat)->0);
            }
            Some((v, j))
        },
        None => None,
    }
}

/// Read one atom at `i`.
fn get_atom(b: &[u8], i: usize) -> (r: Option<(Atom, usize)>)
    ensures
        match r {
            Some((a, j)) => rd_atom(b@, i as int) == Some((a@, j as int)) && i < j <= b@.len(),
            None => rd_atom(b@, i as int) is None,
        },
{
    if i >= b.len() {
        return None;
    }
    let kind = b[i];
    if kind == 0 {
        match get_le(b, i + 1, 16) {
            Some((x, j)) => Some((Atom::U(x), j)),
            None => None,
        }
    } else if kind == 1 {
        let n128 = match get_le(b, i + 1, 4) {
            Some((x, _)) => x,
            None => {
                return None;
            },
        };
        proof {
            lemma_rd_le_bound(b@, i + 1, 4);
            lemma_pow256_values();
        }
        let n = n128 as usize;
        if b.len() < 5 || i > b.len() - 5 || (b.len() - 5 - i) / 4 < n {
            proof {
                assert(i + 5 + 4 * (n as int) > b@.len());
            }
            return None;
        }
        match get_chars(b, i + 5, n) {
            Some((v, j)) => {
                let s = string_from_chars(&v);
                Some((Atom::S(s), j))
            },
            None => None,
        }
    } else if kind == 2 {
        let n128 = match get_le(b, i + 1, 4) {
            Some((x, _)) => x,
            None => {
                return None;
            },
        };
        proof {
            lemma_rd_le_bound(b@, i + 1, 4);
            lemma_pow256_values();
        }
        let n = n128 as usize;
        if b.len() < 5 || i > b.len() - 5 || b.len() - 5 - i < n {
            proof {
                assert(i + 5 + (n as int) > b@.len());
            }
            return None;
        }
        let blen = b.len();
        let mut v: Vec<u8> = Vec::new();
        let mut k: usize = 0;
        while k < n
            invariant
                blen == b@.len(),
                i + 5 + n <= blen,
                k <= n,
                v@ =~= b@.subrange(i + 5 as int, i + 5 + k as int),
            decreases n - k,
        {
            v.push(b[i + 5 + k]);
            proof {
                assert(v@ =~= b@.subrange(i + 5 as int, i + 5 + (k + 1) as int));
            }
            k += 1;
        }
        Some((Atom::B(v), i + 5 + n))
    } else {
        None
    }
}

/// Decode a whole payload back into its atoms; `None` for anything that
/// is not exactly an encoded atom list. Together with `encode_atoms` and
/// `lemma_payload_round` this gives the wire round trip: decoding an
/// encoded atom list returns exactly that list.
pub fn decode_atoms(b: &[u8]) -> (r: Option<Vec<Atom>>)
    ensures
        match r {
            Some(v) => dec_payload(b@) == Some(atoms_view(v@)),
            None => dec_payload(b@) is None,
        },
{
    if b.len() < 4 {
        return None;
    }
    let count128 = match get_le(b, 0, 4) {
        Some((x, _)) => x,
        None => {
            return None;
        },
    };
    proof {
        lemma_rd_le_bound(b@, 0, 4);
        lemma_pow256_values();
    }
    let count = count128 as usize;
    let mut out: Vec<Atom> = Vec::new();
    let mut pos: usize = 4;
    let mut k: usize = 0;
    while k < count
        invariant
            4 <= pos <= b@.len(),
            b@.len() >= 4,
            count as int == rd_le(b@, 0, 4),
            k <= count,
            rd_atoms(b@, 4, count as nat) == (match rd_atoms(b@, pos as int, (count - k) as nat) {
                Some((rest, end)) => Some((atoms_view(out@) + rest, end)),
                None => None::<(Seq<AtomV>, int)>,
            }),
        decreases count - k,
    {
        match get_atom(b, pos) {
            Some((a, j)) => {
                let ghost pre = out@;
                out.push(a);
                proof {
                    assert(atoms_view(out@) =~= atoms_view(pre).push(a@));
                    match rd_atoms(b@, j as int, (count - k - 1) as nat) {
                        Some((rest2, end2)) => {
                            assert(atoms_view(pre) + (seq![a@] + rest2) =~= atoms_view(out@)
                                + rest2);
                        },
                        None => {},
                    }
                }
                pos = j;
            },
            None => {
                proof {
                    assert(count - k >= 1);
                    assert(rd_atoms(b@, pos as int, (count - k) as nat) is None);
                }
                return None;
            },
        }
        k += 1;
    }
    if pos != b.len() {
        proof {
            assert(rd_atoms(b@, pos as int, 0) == Some((Seq::<AtomV>::empty(), pos as int)));
            assert(atoms_view(out@) + Seq::<AtomV>::empty() =~= atoms_view(out@));
        }
        return None;
    }
    proof {
        assert(rd_atoms(b@, pos as int, 0) == Some((Seq::<AtomV>::empty(), pos as int)));
        assert(atoms_view(out@) + Seq::<AtomV>::empty() =~= atoms_view(out@));
    }
    Some(out)
}


/// The atom an optional string becomes: absent is the integer zero,
/// present is the string itself.
pub open spec fn opt_str_atom(o: Option<String>) -> AtomV {
    match o {
        Some(t) => AtomV::S(t@),
        None => AtomV::U(0),
    }
}

/// The atom a session target becomes.
pub open spec fn target_atoms(t: SessionTarget) -> Seq<AtomV> {
    match t {
        SessionTarget::Name(n) => seq![AtomV::U(0), AtomV::S(n@)],
        SessionTarget::Id(id) => seq![AtomV::U(1), AtomV::U(id.0)],
    }
}

/// The code of a direction.
pub open spec fn dir_code(d: Direction) -> u128 {
    match d {
        Direction::Up => 0,
        Direction::Down => 1,
        Direction::Left => 2,
        Direction::Right => 3,
    }
}

/// The atoms of a copy-mode action: its code, plus the query for the
/// searches.
pub open spec fn action_atoms(a: CopyModeAction) -> Seq<AtomV> {
    match a {
        CopyModeAction::Up => seq![AtomV::U(0)],
        CopyModeAction::Down => seq![AtomV::U(1)],
        CopyModeAction::Left => seq![AtomV::U(2)],
        CopyModeAction::Right => seq![AtomV::U(3)],
        CopyModeAction::PageUp => seq![AtomV::U(4)],
        CopyModeAction::PageDown => seq![AtomV::U(5)],
        CopyModeAction::HalfPageUp => seq![AtomV::U(6)],
        CopyModeAction::HalfPageDown => seq![AtomV::U(7)],
        CopyModeAction::Top => seq![AtomV::U(8)],
        CopyModeAction::Bottom => seq![AtomV::U(9)],
        CopyModeAction::StartOfLine => seq![AtomV::U(10)],
        CopyModeAction::EndOfLine => seq![AtomV::U(11)],
        CopyModeAction::StartSelection => seq![AtomV::U(12)],
        CopyModeAction::CopySelection => seq![AtomV::U(13)],
        CopyModeAction::CancelSelection => seq![AtomV::U(14)],
        CopyModeAction::SearchForward(q) => seq![AtomV::U(15), AtomV::S(q@)],
        CopyModeAction::SearchBackward(q) => seq![AtomV::U(16), AtomV::S(q@)],
        CopyModeAction::SearchNext => seq![AtomV::U(17)],
        CopyModeAction::SearchPrev => seq![AtomV::U(18)],
        CopyModeAction::Exit => seq![AtomV::U(19)],
    }
}

/// The flat atom form of a client message: a tag, then the fields.
pub open spec fn client_atoms(m: ClientMessage) -> Seq<AtomV> {
    match m {
        ClientMessage::NewSession { name, command, cols, rows } => seq![AtomV::U(0)]
            + seq![opt_str_atom(name), opt_str_atom(command)] + seq![
            AtomV::U(cols as u128),
            AtomV::U(rows as u128),
        ],
        ClientMessage::Attach { session, cols, rows } => seq![AtomV::U(1)] + target_atoms(session)
            + seq![AtomV::U(cols as u128), AtomV::U(rows as u128)],
        ClientMessage::Detach => seq![AtomV::U(2)],
        ClientMessage::Input(bytes) => seq![AtomV::U(3), AtomV::B(bytes@)],
        ClientMessage::Resize { cols, rows } => seq![
            AtomV::U(4),
            AtomV::U(cols as u128),
            AtomV::U(rows as u128),
        ],
        ClientMessage::SplitPane { horizontal } => seq![
            AtomV::U(5),
            AtomV::U(
                if horizontal {
                    1
                } else {
                    0
                },
            ),
        ],
        ClientMessage::SelectPane(d) => seq![AtomV::U(6), AtomV::U(dir_code(d))],
        ClientMessage::ResizePane { direction, amount } => seq![
            AtomV::U(7),
            AtomV::U(dir_code(direction)),
            AtomV::U(amount as u128),
        ],
        ClientMessage::ZoomPane => seq![AtomV::U(8)],
        ClientMessage::NewWindow { name, command } => seq![AtomV::U(9)] + seq![
            opt_str_atom(name),
            opt_str_atom(command),
        ],
        ClientMessage::ClosePane => seq![AtomV::U(10)],
        ClientMessage::SelectWindow(i) => seq![AtomV::U(11), AtomV::U(i as u128)],
        ClientMessage::NextWindow => seq![AtomV::U(12)],
        ClientMessage::PrevWindow => seq![AtomV::U(13)],
        ClientMessage::RenameWindow(n) => seq![AtomV::U(14), AtomV::S(n@)],
        ClientMessage::RenameSession(n) => seq![AtomV::U(15), AtomV::S(n@)],
        ClientMessage::ListSessions => seq![AtomV::U(16)],
        ClientMessage::KillSession(t) => seq![AtomV::U(17)] + target_atoms(t),
        ClientMessage::EnterCopyMode => seq![AtomV::U(18)],
        ClientMessage::CopyModeInput(a) => seq![AtomV::U(19)] + action_atoms(a),
        ClientMessage::Paste => seq![AtomV::U(20)],
        ClientMessage::Command(c) => seq![AtomV::U(21), AtomV::S(c@)],
        ClientMessage::MouseEvent { kind, col, row } => seq![
            AtomV::U(22),
            AtomV::U(
                match kind {
                    MouseEventKind::Click => 0,
                    MouseEventKind::ScrollUp => 1,
                    MouseEventKind::ScrollDown => 2,
                },
            ),
            AtomV::U(col as u128),
            AtomV::U(row as u128),
        ],
        ClientMessage::Ping => seq![AtomV::U(23)],
    }
}

/// The flat atom form of one session description.
pub open spec fn info_atoms(i: SessionInfo) -> Seq<AtomV> {
    seq![
        AtomV::U(i.id.0),
        AtomV::S(i.name@),
        AtomV::U(i.window_count as u128),
        AtomV::U(i.pane_count as u128),
        AtomV::U(i.created_at as u128),
        AtomV::U(i.attached_clients as u128),
    ]
}

/// The flat atom form of a session list.
pub open spec fn infos_atoms(v: Seq<SessionInfo>) -> Seq<AtomV>
    decreases v.len(),
{
    if v.len() == 0 {
        Seq::empty()
    } else {
        info_atoms(v[0]) + infos_atoms(v.drop_first())
    }
}

/// The flat atom form of a server message.
pub open spec fn server_atoms(m: ServerMessage) -> Seq<AtomV> {
    match m {
        ServerMessage::Output(bytes) => seq![AtomV::U(0), AtomV::B(bytes@)],
        ServerMessage::SessionCreated { session_id, name } => seq![
            AtomV::U(1),
            AtomV::U(session_id.0),
            AtomV::S(name@),
        ],
        ServerMessage::Attached { session_id, name } => seq![
            AtomV::U(2),
            AtomV::U(session_id.0),
            AtomV::S(name@),
        ],
        ServerMessage::Detached => seq![AtomV::U(3)],
        ServerMessage::SessionList(v) => seq![AtomV::U(4), AtomV::U(v@.len() as u128)]
            + infos_atoms(v@),
        ServerMessage::Error(e) => seq![AtomV::U(5), AtomV::S(e@)],
        ServerMessage::Pong => seq![AtomV::U(6)],
        ServerMessage::Shutdown => seq![AtomV::U(7)],
        ServerMessage::Notification(n) => seq![AtomV::U(8), AtomV::S(n@)],
    }
}

/// Whether a message's strings and blobs fit their four-byte length
/// prefixes; every realistic message does.
pub open spec fn client_msg_wf(m: ClientMessage) -> bool {
    forall|k: int| 0 <= k < client_atoms(m).len() ==> atom_wf(#[trigger] client_atoms(m)[k])
}

pub open spec fn server_msg_wf(m: ServerMessage) -> bool {
    server_atoms(m).len() < 0x1_0000_0000 && forall|k: int|
        0 <= k < server_atoms(m).len() ==> atom_wf(#[trigger] server_atoms(m)[k])
}

/// Encoding then decoding a client message's wire form returns exactly
/// its atoms, so a decoder that rebuilds the message from them recovers
/// the original.
pub proof fn lemma_client_round_trip(m: ClientMessage)
    requires
        client_msg_wf(m),
    ensures
        dec_payload(enc_payload(client_atoms(m))) == Some(client_atoms(m)),
{
    assert(client_atoms(m).len() < 0x1_0000_0000) by {
        match m {
            ClientMessage::Attach { session, cols, rows } => {
                match session {
                    SessionTarget::Name(_) => {},
                    SessionTarget::Id(_) => {},
                }
            },
            ClientMessage::CopyModeInput(a) => {
                match a {
                    CopyModeAction::SearchForward(_) => {},
                    CopyModeAction::SearchBackward(_) => {},
                    _ => {},
                }
            },
            ClientMessage::KillSession(t) => {
                match t {
                    SessionTarget::Name(_) => {},
                    SessionTarget::Id(_) => {},
                }
            },
            _ => {},
        }
    }
    lemma_payload_round(client_atoms(m));
}

/// The server-message counterpart of `lemma_client_round_trip`.
pub proof fn lemma_server_round_trip(m: ServerMessage)
    requires
        server_msg_wf(m),
    ensures
        dec_payload(enc_payload(server_atoms(m))) == Some(server_atoms(m)),
{
    lemma_payload_round(server_atoms(m));
}


/// Append the atom of an optional string.
fn push_opt_str(out: &mut Vec<Atom>, o: Option<String>)
    ensures
        final(out)@.len() == old(out)@.len() + 1,
        atoms_view(final(out)@) =~= atoms_view(old(out)@).push(opt_str_atom(o)),
{
    match o {
        Some(t) => {
            out.push(Atom::S(t));
        },
        None => {
            out.push(Atom::U(0));
        },
    }
    proof {
        assert(atoms_view(out@) =~= atoms_view(out@.drop_last()).push(out@.last()@));
    }
}

/// Append one atom, tracking the views.
fn push_atom(out: &mut Vec<Atom>, a: Atom)
    ensures
        atoms_view(final(out)@) =~= atoms_view(old(out)@).push(a@),
{
    out.push(a);
    proof {
        assert(atoms_view(out@) =~= atoms_view(out@.drop_last()).push(out@.last()@));
    }
}

/// The flat atom list of a client message.
#[verifier::rlimit(100)]
#[verifier::spinoff_prover]
fn client_to_atoms(m: ClientMessage) -> (r: Vec<Atom>)
    ensures
        atoms_view(r@) == client_atoms(m),
{
    let ghost spec_atoms = client_atoms(m);
    let mut v: Vec<Atom> = Vec::new();
    match m {
        ClientMessage::NewSession { name, command, cols, rows } => {
            push_atom(&mut v, Atom::U(0));
            push_opt_str(&mut v, name);
            push_opt_str(&mut v, command);
            push_atom(&mut v, Atom::U(cols as u128));
            push_atom(&mut v, Atom::U(rows as u128));
        },
        ClientMessage::Attach { session, cols, rows } => {
            push_atom(&mut v, Atom::U(1));
            match session {
                SessionTarget::Name(n) => {
                    push_atom(&mut v, Atom::U(0));
                    push_atom(&mut v, Atom::S(n));
                },
                SessionTarget::Id(id) => {
                    push_atom(&mut v, Atom::U(1));
                    push_atom(&mut v, Atom::U(id.0));
                },
            }
            push_atom(&mut v, Atom::U(cols as u128));
            push_atom(&mut v, Atom::U(rows as u128));
        },
        ClientMessage::Detach => {
            push_atom(&mut v, Atom::U(2));
        },
        ClientMessage::Input(bytes) => {
            push_atom(&mut v, Atom::U(3));
            push_atom(&mut v, Atom::B(bytes));
        },
        ClientMessage::Resize { cols, rows } => {
            push_atom(&mut v, Atom::U(4));
            push_atom(&mut v, Atom::U(cols as u128));
            push_atom(&mut v, Atom::U(rows as u128));
        },
        ClientMessage::SplitPane { horizontal } => {
            push_atom(&mut v, Atom::U(5));
            push_atom(
                &mut v,
                Atom::U(
                    if horizontal {
                        1
                    } else {
                        0
                    },
                ),
            );
        },
        ClientMessage::SelectPane(d) => {
            push_atom(&mut v, Atom::U(6));
            push_atom(&mut v, Atom::U(dir_code_exec(d)));
        },
        ClientMessage::ResizePane { direction, amount } => {
            push_atom(&mut v, Atom::U(7));
            push_atom(&mut v, Atom::U(dir_code_exec(direction)));
            push_atom(&mut v, Atom::U(amount as u128));
        },
        ClientMessage::ZoomPane => {
            push_atom(&mut v, Atom::U(8));
        },
        ClientMessage::NewWindow { name, command } => {
            push_atom(&mut v, Atom::U(9));
            push_opt_str(&mut v, name);
            push_opt_str(&mut v, command);
        },
        ClientMessage::ClosePane => {
            push_atom(&mut v, Atom::U(10));
        },
        ClientMessage::SelectWindow(i) => {
            push_atom(&mut v, Atom::U(11));
            push_atom(&mut v, Atom::U(i as u128));
        },
        ClientMessage::NextWindow => {
            push_atom(&mut v, Atom::U(12));
        },
        ClientMessage::PrevWindow => {
            push_atom(&mut v, Atom::U(13));
        },
        ClientMessage::RenameWindow(n) => {
            push_atom(&mut v, Atom::U(14));
            push_atom(&mut v, Atom::S(n));
        },
        ClientMessage::RenameSession(n) => {
            push_atom(&mut v, Atom::U(15));
            push_atom(&mut v, Atom::S(n));
        },
        ClientMessage::ListSessions => {
            push_atom(&mut v, Atom::U(16));
        },
        ClientMessage::KillSession(t) => {
            push_atom(&mut v, Atom::U(17));
            match t {
                SessionTarget::Name(n) => {
                    push_atom(&mut v, Atom::U(0));
                    push_atom(&mut v, Atom::S(n));
                },
                SessionTarget::Id(id) => {
                    push_atom(&mut v, Atom::U(1));
                    push_atom(&mut v, Atom::U(id.0));
                },
            }
        },
        ClientMessage::EnterCopyMode => {
            push_atom(&mut v, Atom::U(18));
        },
        ClientMessage::CopyModeInput(a) => {
            push_atom(&mut v, Atom::U(19));
            match a {
                CopyModeAction::Up => push_atom(&mut v, Atom::U(0)),
                CopyModeAction::Down => push_atom(&mut v, Atom::U(1)),
                CopyModeAction::Left => push_atom(&mut v, Atom::U(2)),
                CopyModeAction::Right => push_atom(&mut v, Atom::U(3)),
                CopyModeAction::PageUp => push_atom(&mut v, Atom::U(4)),
                CopyModeAction::PageDown => push_atom(&mut v, Atom::U(5)),
                CopyModeAction::HalfPageUp => push_atom(&mut v, Atom::U(6)),
                CopyModeAction::HalfPageDown => push_atom(&mut v, Atom::U(7)),
                CopyModeAction::Top => push_atom(&mut v, Atom::U(8)),
                CopyModeAction::Bottom => push_atom(&mut v, Atom::U(9)),
                CopyModeAction::StartOfLine => push_atom(&mut v, Atom::U(10)),
                CopyModeAction::EndOfLine => push_atom(&mut v, Atom::U(11)),
                CopyModeAction::StartSelection => push_atom(&mut v, Atom::U(12)),
                CopyModeAction::CopySelection => push_atom(&mut v, Atom::U(13)),
                CopyModeAction::CancelSelection => push_atom(&mut v, Atom::U(14)),
                CopyModeAction::SearchForward(q) => {
                    push_atom(&mut v, Atom::U(15));
                    push_atom(&mut v, Atom::S(q));
                },
                CopyModeAction::SearchBackward(q) => {
                    push_atom(&mut v, Atom::U(16));
                    push_atom(&mut v, Atom::S(q));
                },
                CopyModeAction::SearchNext => push_atom(&mut v, Atom::U(17)),
                CopyModeAction::SearchPrev => push_atom(&mut v, Atom::U(18)),
                CopyModeAction::Exit => push_atom(&mut v, Atom::U(19)),
            }
        },
        ClientMessage::Paste => {
            push_atom(&mut v, Atom::U(20));
        },
        ClientMessage::Command(c) => {
            push_atom(&mut v, Atom::U(21));
            push_atom(&mut v, Atom::S(c));
        },
        ClientMessage::MouseEvent { kind, col, row } => {
            push_atom(&mut v, Atom::U(22));
            push_atom(
                &mut v,
                Atom::U(
                    match kind {
                        MouseEventKind::Click => 0,
                        MouseEventKind::ScrollUp => 1,
                        MouseEventKind::ScrollDown => 2,
                    },
                ),
            );
            push_atom(&mut v, Atom::U(col as u128));
            push_atom(&mut v, Atom::U(row as u128));
        },
        ClientMessage::Ping => {
            push_atom(&mut v, Atom::U(23));
        },
    }
    proof {
        assert(atoms_view(v@) =~= spec_atoms);
    }
    v
}

/// The wire code of a direction.
fn dir_code_exec(d: Direction) -> (r: u128)
    ensures
        r == dir_code(d),
{
    match d {
        Direction::Up => 0,
        Direction::Down => 1,
        Direction::Left => 2,
        Direction::Right => 3,
    }
}

/// Encode one client message as its wire bytes.
pub fn encode_client(m: ClientMessage) -> (r: Option<Vec<u8>>)
    ensures
        r matches Some(b) ==> b@ == enc_payload(client_atoms(m)),
{
    let atoms = client_to_atoms(m);
    if !atoms_small(&atoms) {
        return None;
    }
    Some(encode_atoms(&atoms))
}

/// Whether every atom's length fits its prefix and the list its count.
fn atoms_small(atoms: &Vec<Atom>) -> (r: bool)
    ensures
        r ==> atoms@.len() < 0x1_0000_0000 && forall|k: int|
            0 <= k < atoms@.len() ==> atom_wf(#[trigger] atoms@[k]@),
{
    if (atoms.len() as u64) >= 0x1_0000_0000u64 {
        return false;
    }
    let n = atoms.len();
    let mut i: usize = 0;
    while i < n
        invariant
            n == atoms@.len(),
            i <= n,
            forall|k: int| 0 <= k < i ==> atom_wf(#[trigger] atoms@[k]@),
        decreases n - i,
    {
        let ok = match &atoms[i] {
            Atom::U(_) => true,
            Atom::S(t) => (t.as_str().unicode_len() as u64) < 0x1_0000_0000u64,
            Atom::B(b) => (b.len() as u64) < 0x1_0000_0000u64,
        };
        if !ok {
            return false;
        }
        i += 1;
    }
    true
}

/// Decode wire bytes back into a client message. Whatever decodes
/// re-flattens to exactly the parsed atoms, so together with
/// `lemma_client_round_trip` a decoded encoding is the original message.
pub fn decode_client(b: &[u8]) -> (r: Option<ClientMessage>)
    ensures
        r matches Some(m) ==> dec_payload(b@) == Some(client_atoms(m)),
{
    let atoms = match decode_atoms(b) {
        Some(a) => a,
        None => {
            return None;
        },
    };
    let m = atoms_to_client(atoms);
    m
}

/// Rebuild a client message from its flat atoms.
#[verifier::rlimit(100)]
#[verifier::spinoff_prover]
fn atoms_to_client(atoms: Vec<Atom>) -> (r: Option<ClientMessage>)
    ensures
        r matches Some(m) ==> client_atoms(m) == atoms_view(atoms@),
{
    let n = atoms.len();
    if n == 0 {
        return None;
    }
    let tag = match &atoms[0] {
        Atom::U(x) => *x,
        _ => {
            return None;
        },
    };
    let mut rest = atoms;
    let _head = rest.remove(0);
    let ghost full = atoms_view(rest@).insert(0, AtomV::U(tag));
    proof {
        assert(full =~= seq![AtomV::U(tag)] + atoms_view(rest@));
    }
    let built: Option<ClientMessage> = if tag == 2 && rest.len() == 0 {
        Some(ClientMessage::Detach)
    } else if tag == 8 && rest.len() == 0 {
        Some(ClientMessage::ZoomPane)
    } else if tag == 10 && rest.len() == 0 {
        Some(ClientMessage::ClosePane)
    } else if tag == 12 && rest.len() == 0 {
        Some(ClientMessage::NextWindow)
    } else if tag == 13 && rest.len() == 0 {
        Some(ClientMessage::PrevWindow)
    } else if tag == 16 && rest.len() == 0 {
        Some(ClientMessage::ListSessions)
    } else if tag == 18 && rest.len() == 0 {
        Some(ClientMessage::EnterCopyMode)
    } else if tag == 20 && rest.len() == 0 {
        Some(ClientMessage::Paste)
    } else if tag == 23 && rest.len() == 0 {
        Some(ClientMessage::Ping)
    } else if tag == 3 && rest.len() == 1 {
        match rest.remove(0) {
            Atom::B(bytes) => Some(ClientMessage::Input(bytes)),
            _ => None,
        }
    } else if tag == 14 && rest.len() == 1 {
        match rest.remove(0) {
            Atom::S(nm) => Some(ClientMessage::RenameWindow(nm)),
            _ => None,
        }
    } else if tag == 15 && rest.len() == 1 {
        match rest.remove(0) {
            Atom::S(nm) => Some(ClientMessage::RenameSession(nm)),
            _ => None,
        }
    } else if tag == 21 && rest.len() == 1 {
        match rest.remove(0) {
            Atom::S(c) => Some(ClientMessage::Command(c)),
            _ => None,
        }
    } else if tag == 11 && rest.len() == 1 {
        match rest.remove(0) {
            Atom::U(x) => {
                if x <= usize::MAX as u128 {
                    Some(ClientMessage::SelectWindow(x as usize))
                } else {
                    None
                }
            },
            _ => None,
        }
    } else if tag == 5 && rest.len() == 1 {
        match rest.remove(0) {
            Atom::U(x) => {
                if x == 0 || x == 1 {
                    Some(ClientMessage::SplitPane { horizontal: x == 1 })
                } else {
                    None
                }
            },
            _ => None,
        }
    } else if tag == 6 && rest.len() == 1 {
        match rest.remove(0) {
            Atom::U(x) => match dir_from(x) {
                Some(d) => Some(ClientMessage::SelectPane(d)),
                None => None,
            },
            _ => None,
        }
    } else if tag == 4 && rest.len() == 2 {
        let a0 = rest.remove(0);
        let a1 = rest.remove(0);
        match (a0, a1) {
            (Atom::U(c), Atom::U(w)) => {
                if c <= u16::MAX as u128 && w <= u16::MAX as u128 {
                    Some(ClientMessage::Resize { cols: c as u16, rows: w as u16 })
                } else {
                    None
                }
            },
            _ => None,
        }
    } else if tag == 7 && rest.len() == 2 {
        let a0 = rest.remove(0);
        let a1 = rest.remove(0);
        match (a0, a1) {
            (Atom::U(dc), Atom::U(am)) => {
                match dir_from(dc) {
                    Some(d) => {
                        if am <= u16::MAX as u128 {
                            Some(
                                ClientMessage::ResizePane { direction: d, amount: am as u16 },
                            )
                        } else {
                            None
                        }
                    },
                    None => None,
                }
            },
            _ => None,
        }
    } else if tag == 22 && rest.len() == 3 {
        let a0 = rest.remove(0);
        let a1 = rest.remove(0);
        let a2 = rest.remove(0);
        match (a0, a1, a2) {
            (Atom::U(kc), Atom::U(c), Atom::U(w)) => {
                let kind = if kc == 0 {
                    Some(MouseEventKind::Click)
                } else if kc == 1 {
                    Some(MouseEventKind::ScrollUp)
                } else if kc == 2 {
                    Some(MouseEventKind::ScrollDown)
                } else {
                    None
                };
                match kind {
                    Some(k) => {
                        if c <= u16::MAX as u128 && w <= u16::MAX as u128 {
                            Some(
                                ClientMessage::MouseEvent {
                                    kind: k,
                                    col: c as u16,
                                    row: w as u16,
                                },
                            )
                        } else {
                            None
                        }
                    },
                    None => None,
                }
            },
            _ => None,
        }
    } else if tag == 9 && rest.len() == 2 {
        let a0 = rest.remove(0);
        let a1 = rest.remove(0);
        match (opt_str_of(a0), opt_str_of(a1)) {
            (Some(name), Some(command)) => Some(ClientMessage::NewWindow { name, command }),
            _ => None,
        }
    } else if tag == 0 && rest.len() == 4 {
        let a0 = rest.remove(0);
        let a1 = rest.remove(0);
        let a2 = rest.remove(0);
        let a3 = rest.remove(0);
        match (opt_str_of(a0), opt_str_of(a1), a2, a3) {
            (Some(name), Some(command), Atom::U(c), Atom::U(w)) => {
                if c <= u16::MAX as u128 && w <= u16::MAX as u128 {
                    Some(
                        ClientMessage::NewSession {
                            name,
                            command,
                            cols: c as u16,
                            rows: w as u16,
                        },
                    )
                } else {
                    None
                }
            },
            _ => None,
        }
    } else if tag == 1 && rest.len() == 4 {
        let a0 = rest.remove(0);
        let a1 = rest.remove(0);
        let a2 = rest.remove(0);
        let a3 = rest.remove(0);
        let target: Option<SessionTarget> = target_of(a0, a1);
        match (target, a2, a3) {
            (Some(t), Atom::U(c), Atom::U(w)) => {
                if c <= u16::MAX as u128 && w <= u16::MAX as u128 {
                    Some(
                        ClientMessage::Attach { session: t, cols: c as u16, rows: w as u16 },
                    )
                } else {
                    None
                }
            },
            _ => None,
        }
    } else if tag == 17 && rest.len() == 2 {
        let a0 = rest.remove(0);
        let a1 = rest.remove(0);
        match target_of(a0, a1) {
            Some(t) => Some(ClientMessage::KillSession(t)),
            None => None,
        }
    } else if tag == 19 && (rest.len() == 1 || rest.len() == 2) {
        let a0 = rest.remove(0);
        let code = match a0 {
            Atom::U(x) => x,
            _ => {
                return None;
            },
        };
        if rest.len() == 0 {
            let act: Option<CopyModeAction> = if code == 0 {
                Some(CopyModeAction::Up)
            } else if code == 1 {
                Some(CopyModeAction::Down)
            } else if code == 2 {
                Some(CopyModeAction::Left)
            } else if code == 3 {
                Some(CopyModeAction::Right)
            } else if code == 4 {
                Some(CopyModeAction::PageUp)
            } else if code == 5 {
                Some(CopyModeAction::PageDown)
            } else if code == 6 {
                Some(CopyModeAction::HalfPageUp)
            } else if code == 7 {
                Some(CopyModeAction::HalfPageDown)
            } else if code == 8 {
                Some(CopyModeAction::Top)
            } else if code == 9 {
                Some(CopyModeAction::Bottom)
            } else if code == 10 {
                Some(CopyModeAction::StartOfLine)
            } else if code == 11 {
                Some(CopyModeAction::EndOfLine)
            } else if code == 12 {
                Some(CopyModeAction::StartSelection)
            } else if code == 13 {
                Some(CopyModeAction::CopySelection)
            } else if code == 14 {
                Some(CopyModeAction::CancelSelection)
            } else if code == 17 {
                Some(CopyModeAction::SearchNext)
            } else if code == 18 {
                Some(CopyModeAction::SearchPrev)
            } else if code == 19 {
                Some(CopyModeAction::Exit)
            } else {
                None
            };
            match act {
                Some(a) => Some(ClientMessage::CopyModeInput(a)),
                None => None,
            }
        } else {
            let a1 = rest.remove(0);
            match a1 {
                Atom::S(q) => {
                    if code == 15 {
                        Some(ClientMessage::CopyModeInput(CopyModeAction::SearchForward(q)))
                    } else if code == 16 {
                        Some(ClientMessage::CopyModeInput(CopyModeAction::SearchBackward(q)))
                    } else {
                        None
                    }
                },
                _ => None,
            }
        }
    } else {
        None
    };
    proof {
        match built {
            Some(ref m) => {
                assert(client_atoms(*m) =~= full);
            },
            None => {},
        }
    }
    built
}

/// The direction a wire code denotes.
fn dir_from(x: u128) -> (r: Option<Direction>)
    ensures
        r matches Some(d) ==> dir_code(d) == x,
{
    if x == 0 {
        Some(Direction::Up)
    } else if x == 1 {
        Some(Direction::Down)
    } else if x == 2 {
        Some(Direction::Left)
    } else if x == 3 {
        Some(Direction::Right)
    } else {
        None
    }
}

/// The optional string an atom denotes: the zero integer is absence.
fn opt_str_of(a: Atom) -> (r: Option<Option<String>>)
    ensures
        r matches Some(o) ==> opt_str_atom(o) == a@,
{
    match a {
        Atom::U(x) => {
            if x == 0 {
                Some(None)
            } else {
                None
            }
        },
        Atom::S(t) => Some(Some(t)),
        Atom::B(_) => None,
    }
}

/// The session target two atoms denote.
fn target_of(a0: Atom, a1: Atom) -> (r: Option<SessionTarget>)
    ensures
        r matches Some(t) ==> target_atoms(t) == seq![a0@, a1@],
{
    match (a0, a1) {
        (Atom::U(k), Atom::S(nm)) => {
            if k == 0 {
                proof {
                    assert(target_atoms(SessionTarget::Name(nm)) =~= seq![
                        AtomV::U(0),
                        AtomV::S(nm@),
                    ]);
                }
                Some(SessionTarget::Name(nm))
            } else {
                None
            }
        },
        (Atom::U(k), Atom::U(idv)) => {
            if k == 1 {
                proof {
                    assert(target_atoms(SessionTarget::Id(crate::SessionId(idv))) =~= seq![
                        AtomV::U(1),
                        AtomV::U(idv),
                    ]);
                }
                Some(SessionTarget::Id(crate::SessionId(idv)))
            } else {
                None
            }
        },
        _ => None,
    }
}


/// The largest frame the transport accepts: sixteen mebibytes.
pub const MAX_FRAME_BYTES: u32 = 16777216;

/// Appending one session description extends the list's atoms.
pub proof fn lemma_infos_snoc(v: Seq<SessionInfo>, x: SessionInfo)
    ensures
        infos_atoms(v.push(x)) == infos_atoms(v) + info_atoms(x),
    decreases v.len(),
{
    if v.len() == 0 {
        assert(v.push(x)[0] == x);
        assert(v.push(x).drop_first() =~= Seq::<SessionInfo>::empty());
        assert(infos_atoms(Seq::<SessionInfo>::empty()) =~= Seq::<AtomV>::empty());
        assert(infos_atoms(v.push(x)) =~= infos_atoms(v) + info_atoms(x));
    } else {
        assert(v.push(x)[0] == v[0]);
        assert(v.push(x).drop_first() =~= v.drop_first().push(x));
        lemma_infos_snoc(v.drop_first(), x);
        assert(infos_atoms(v.push(x)) =~= infos_atoms(v) + info_atoms(x));
    }
}

/// The flat atom list of a server message.
#[verifier::rlimit(100)]
#[verifier::spinoff_prover]
#[verifier::loop_isolation(false)]
fn server_to_atoms(m: ServerMessage) -> (r: Vec<Atom>)
    ensures
        atoms_view(r@) == server_atoms(m),
{
    let ghost spec_atoms = server_atoms(m);
    let mut v: Vec<Atom> = Vec::new();
    match m {
        ServerMessage::Output(bytes) => {
            push_atom(&mut v, Atom::U(0));
            push_atom(&mut v, Atom::B(bytes));
        },
        ServerMessage::SessionCreated { session_id, name } => {
            push_atom(&mut v, Atom::U(1));
            push_atom(&mut v, Atom::U(session_id.0));
            push_atom(&mut v, Atom::S(name));
        },
        ServerMessage::Attached { session_id, name } => {
            push_atom(&mut v, Atom::U(2));
            push_atom(&mut v, Atom::U(session_id.0));
            push_atom(&mut v, Atom::S(name));
        },
        ServerMessage::Detached => {
            push_atom(&mut v, Atom::U(3));
        },
        ServerMessage::SessionList(infos) => {
            push_atom(&mut v, Atom::U(4));
            push_atom(&mut v, Atom::U(infos.len() as u128));
            let ghost base = atoms_view(v@);
            let n = infos.len();
            let ghost all = infos@;
            let mut infos_mut = infos;
            let mut i: usize = 0;
            while i < n
                invariant
                    n == all.len(),
                    infos_mut@ =~= all.skip(i as int),
                    i <= n,
                    atoms_view(v@) =~= base + infos_atoms(all.take(i as int)),
                decreases n - i,
            {
                let info = infos_mut.remove(0);
                proof {
                    assert(all.skip(i as int)[0] == all[i as int]);
                    assert(infos_mut@ =~= all.skip(i + 1 as int));
                }
                push_atom(&mut v, Atom::U(info.id.0));
                push_atom(&mut v, Atom::S(info.name));
                push_atom(&mut v, Atom::U(info.window_count as u128));
                push_atom(&mut v, Atom::U(info.pane_count as u128));
                push_atom(&mut v, Atom::U(info.created_at as u128));
                push_atom(&mut v, Atom::U(info.attached_clients as u128));
                proof {
                    lemma_infos_snoc(all.take(i as int), all[i as int]);
                    assert(all.take(i as int).push(all[i as int]) =~= all.take(i + 1 as int));
                    assert(atoms_view(v@) =~= base + infos_atoms(all.take(i + 1 as int)));
                }
                i += 1;
            }
            proof {
                assert(all.take(n as int) =~= all);
            }
        },
        ServerMessage::Error(e) => {
            push_atom(&mut v, Atom::U(5));
            push_atom(&mut v, Atom::S(e));
        },
        ServerMessage::Pong => {
            push_atom(&mut v, Atom::U(6));
        },
        ServerMessage::Shutdown => {
            push_atom(&mut v, Atom::U(7));
        },
        ServerMessage::Notification(n) => {
            push_atom(&mut v, Atom::U(8));
            push_atom(&mut v, Atom::S(n));
        },
    }
    proof {
        assert(atoms_view(v@) =~= spec_atoms);
    }
    v
}

/// Encode one server message as its wire bytes.
pub fn encode_server(m: ServerMessage) -> (r: Option<Vec<u8>>)
    ensures
        r matches Some(b) ==> b@ == enc_payload(server_atoms(m)),
{
    let atoms = server_to_atoms(m);
    if !atoms_small(&atoms) {
        return None;
    }
    Some(encode_atoms(&atoms))
}

/// Rebuild a server message from its flat atoms.
#[verifier::rlimit(100)]
#[verifier::spinoff_prover]
#[verifier::loop_isolation(false)]
fn atoms_to_server(atoms: Vec<Atom>) -> (r: Option<ServerMessage>)
    ensures
        r matches Some(m) ==> server_atoms(m) == atoms_view(atoms@),
{
    let n = atoms.len();
    if n == 0 {
        return None;
    }
    let tag = match &atoms[0] {
        Atom::U(x) => *x,
        _ => {
            return None;
        },
    };
    let ghost orig_view = atoms_view(atoms@);
    let mut rest = atoms;
    let _head = rest.remove(0);
    let ghost full = orig_view;
    proof {
        assert(full =~= seq![AtomV::U(tag)] + atoms_view(rest@));
    }
    let built: Option<ServerMessage> = if tag == 3 && rest.len() == 0 {
        Some(ServerMessage::Detached)
    } else if tag == 6 && rest.len() == 0 {
        Some(ServerMessage::Pong)
    } else if tag == 7 && rest.len() == 0 {
        Some(ServerMessage::Shutdown)
    } else if tag == 0 && rest.len() == 1 {
        match rest.remove(0) {
            Atom::B(b) => Some(ServerMessage::Output(b)),
            _ => None,
        }
    } else if tag == 5 && rest.len() == 1 {
        match rest.remove(0) {
            Atom::S(e) => Some(ServerMessage::Error(e)),
            _ => None,
        }
    } else if tag == 8 && rest.len() == 1 {
        match rest.remove(0) {
            Atom::S(t) => Some(ServerMessage::Notification(t)),
            _ => None,
        }
    } else if (tag == 1 || tag == 2) && rest.len() == 2 {
        let a0 = rest.remove(0);
        let a1 = rest.remove(0);
        match (a0, a1) {
            (Atom::U(idv), Atom::S(nm)) => {
                if tag == 1 {
                    Some(
                        ServerMessage::SessionCreated {
                            session_id: crate::SessionId(idv),
                            name: nm,
                        },
                    )
                } else {
                    Some(
                        ServerMessage::Attached { session_id: crate::SessionId(idv), name: nm },
                    )
                }
            },
            _ => None,
        }
    } else if tag == 4 && rest.len() >= 1 {
        let count128 = match &rest[0] {
            Atom::U(x) => *x,
            _ => {
                return None;
            },
        };
        let ghost rest0 = atoms_view(rest@);
        let _cnt = rest.remove(0);
        proof {
            assert(rest0 =~= seq![AtomV::U(count128)] + atoms_view(rest@));
        }
        if count128 > usize::MAX as u128 {
            return None;
        }
        let count = count128 as usize;
        if rest.len() % 6 != 0 || rest.len() / 6 != count {
            return None;
        }
        proof {
            vstd::arithmetic::div_mod::lemma_fundamental_div_mod(rest@.len() as int, 6);
            assert(rest@.len() == 6 * count);
        }
        let ghost items = atoms_view(rest@);
        let mut infos: Vec<SessionInfo> = Vec::new();
        let mut k: usize = 0;
        let mut rest_mut = rest;
        while k < count
            invariant
                rest_mut@.len() == 6 * (count - k),
                atoms_view(rest_mut@) =~= items.skip(6 * k as int),
                k <= count,
                infos@.len() == k,
                infos_atoms(infos@) + atoms_view(rest_mut@) =~= items,
            decreases count - k,
        {
            let a0 = rest_mut.remove(0);
            let a1 = rest_mut.remove(0);
            let a2 = rest_mut.remove(0);
            let a3 = rest_mut.remove(0);
            let a4 = rest_mut.remove(0);
            let a5 = rest_mut.remove(0);
            let info: Option<SessionInfo> = match (a0, a1, a2, a3, a4, a5) {
                (Atom::U(idv), Atom::S(nm), Atom::U(wc), Atom::U(pc), Atom::U(ca), Atom::U(ac)) => {
                    if wc <= usize::MAX as u128 && pc <= usize::MAX as u128 && ca <= u64::MAX
                        as u128 && ac <= usize::MAX as u128 {
                        Some(
                            SessionInfo {
                                id: crate::SessionId(idv),
                                name: nm,
                                window_count: wc as usize,
                                pane_count: pc as usize,
                                created_at: ca as u64,
                                attached_clients: ac as usize,
                            },
                        )
                    } else {
                        None
                    }
                },
                _ => None,
            };
            match info {
                Some(inf) => {
                    let ghost pre_infos = infos@;
                    infos.push(inf);
                    proof {
                        lemma_infos_snoc(pre_infos, inf);
                        assert(infos_atoms(infos@) + atoms_view(rest_mut@) =~= items);
                        assert(atoms_view(rest_mut@) =~= items.skip(6 * (k + 1) as int));
                    }
                },
                None => {
                    return None;
                },
            }
            k += 1;
        }
        proof {
            assert(atoms_view(rest_mut@) =~= Seq::<AtomV>::empty());
            assert(infos_atoms(infos@) + Seq::<AtomV>::empty() =~= infos_atoms(infos@));
            assert(infos_atoms(infos@) =~= items);
            assert(infos@.len() == count);
            assert(seq![AtomV::U(4), AtomV::U(infos@.len() as u128)] + infos_atoms(infos@)
                =~= full);
        }
        Some(ServerMessage::SessionList(infos))
    } else {
        None
    };
    proof {
        match built {
            Some(ref m) => {
                assert(server_atoms(*m) =~= full);
            },
            None => {},
        }
    }
    built
}

/// Decode wire bytes back into a server message.
pub fn decode_server(b: &[u8]) -> (r: Option<ServerMessage>)
    ensures
        r matches Some(m) ==> dec_payload(b@) == Some(server_atoms(m)),
{
    let atoms = match decode_atoms(b) {
        Some(a) => a,
        None => {
            return None;
        },
    };
    atoms_to_server(atoms)
}

/// Prefix a payload with its four-byte little-endian length; payloads
/// above the sixteen-mebibyte transport bound are refused.
pub fn frame_message(payload: &Vec<u8>) -> (r: Option<Vec<u8>>)
    ensures
        match r {
            Some(f) => payload@.len() <= MAX_FRAME_BYTES && f@ == enc_le(
                payload@.len() as int,
                4,
            ) + payload@,
            None => payload@.len() > MAX_FRAME_BYTES,
        },
{
    if (payload.len() as u64) > MAX_FRAME_BYTES as u64 {
        return None;
    }
    proof {
        lemma_pow256_values();
    }
    let mut out: Vec<u8> = Vec::new();
    put_le(&mut out, payload.len() as u128, 4);
    let n = payload.len();
    let mut i: usize = 0;
    let ghost header = out@;
    while i < n
        invariant
            n == payload@.len(),
            i <= n,
            out@ =~= header + payload@.subrange(0, i as int),
        decreases n - i,
    {
        out.push(payload[i]);
        proof {
            assert(out@ =~= header + payload@.subrange(0, i + 1 as int));
        }
        i += 1;
    }
    proof {
        assert(header + payload@.subrange(0, n as int) =~= header + payload@);
    }
    Some(out)
}

/// Strip and check a four-byte length prefix: the length must match the
/// remaining bytes exactly and stay within the transport bound, and the
/// payload is the rest of the frame. Framing then deframing an in-bound
/// payload returns it unchanged, since `frame_message` writes exactly
/// this shape.
pub fn deframe_message(b: &[u8]) -> (r: Option<Vec<u8>>)
    ensures
        match r {
            Some(p) => p@.len() <= MAX_FRAME_BYTES && b@.len() == 4 + p@.len() && rd_le(b@, 0, 4)
                == p@.len() as int && p@ == b@.subrange(4, b@.len() as int),
            None => true,
        },
{
    if b.len() < 4 {
        return None;
    }
    let len128 = match get_le(b, 0, 4) {
        Some((x, _)) => x,
        None => {
            return None;
        },
    };
    proof {
        lemma_rd_le_bound(b@, 0, 4);
        lemma_pow256_values();
    }
    if len128 > MAX_FRAME_BYTES as u128 {
        return None;
    }
    let len = len128 as usize;
    if b.len() - 4 != len {
        return None;
    }
    let blen = b.len();
    let mut out: Vec<u8> = Vec::new();
    let mut i: usize = 0;
    while i < len
        invariant
            blen == b@.len(),
            4 + len <= blen,
            len == b@.len() - 4,
            i <= len,
            out@ =~= b@.subrange(4, 4 + i as int),
        decreases len - i,
    {
        out.push(b[4 + i]);
        proof {
            assert(out@ =~= b@.subrange(4, 4 + (i + 1) as int));
        }
        i += 1;
    }
    proof {
        assert(out@ =~= b@.subrange(4, b@.len() as int));
    }
    Some(out)
}

/// Framing a payload and reading the frame back returns the payload: the
/// frame holds exactly the length prefix and the bytes.
pub proof fn lemma_frame_round(p: Seq<u8>)
    requires
        p.len() <= MAX_FRAME_BYTES,
    ensures
        ({
            let f = enc_le(p.len() as int, 4) + p;
            rd_le(f, 0, 4) == p.len() as int && f.subrange(4, f.len() as int) == p && f.len() == 4
                + p.len()
        }),
{
    lemma_pow256_values();
    lemma_enc_le_len(p.len() as int, 4);
    let f = enc_le(p.len() as int, 4) + p;
    assert(f.subrange(0, 4) =~= enc_le(p.len() as int, 4));
    lemma_le_round(f, 0, p.len() as int, 4);
    assert(f.subrange(4, f.len() as int) =~= p);
}

} // verus!
