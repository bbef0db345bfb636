//! The value model: a recursive tree of parsed packet structure, and the
//! renderer that turns one tree into indented human-readable text.

use vstd::prelude::*;
use crate::decode::WireInt;
use crate::error::Error;
use crate::error::Outcome;
use crate::error::error_text;
use crate::text::int_text;
use crate::text::dec_digits;
use crate::text::dec_str_i64;
use crate::text::dec_str_u64;
use crate::text::hex_byte;
use crate::text::radix_digits;
use crate::text::radix_str;
use crate::text::spaces;

verus! {

/// A value parsed from a packet.
#[derive(Debug)]
pub enum Val {
    /// A signed integer, in machine-native representation.
    Signed(i64),
    /// An unsigned integer, in machine-native representation, and a radix
    /// (base) for when the value is displayed to the user (e.g. 0x100 vs 256).
    Unsigned { value: u64, radix: u8 },
    /// An integer value that stands for a symbolic value.
    Enum(u64, String),
    /// A UTF-8 encoded string.
    String(String),
    /// A network address, which can have its own special encoding.
    Address { bytes: Vec<u8>, encoded: String },
    /// A set of named values from an encapsulated packet (e.g. TCP within IP).
    Subpacket(Vec<NamedValue>),
    /// Raw bytes, e.g. a checksum or just unparsed data.
    Bytes(Vec<u8>),
    /// An error that stopped further parsing of this subtree.
    Error(Error),
    /// A problem with a packet that did not stop further parsing
    /// (e.g. a bad checksum).
    Warning(Error),
}

/// A named value-or-error: one field of a `Subpacket`.
pub type NamedValue = (&'static str, Outcome<Val>);

/// The indentation put before each child of a `Subpacket` rendered at
/// `ind`: two spaces per level, one level deeper than the parent.
pub open spec fn sub_indent(ind: nat) -> Seq<char> {
    spaces(2 * (ind + 1))
}

/// The rendering of a signed integer: decimal, `-`-prefixed if negative.
pub open spec fn signed_text(i: i64) -> Seq<char> {
    if i >= 0 {
        dec_digits(i as nat)
    } else {
        seq!['-'] + dec_digits((-(i as int)) as nat)
    }
}

/// The rendering of an unsigned integer under a display radix: binary,
/// octal and decimal digits for 2, 8 and 10, `0x`-prefixed hexadecimal
/// for 16, and a defensive decimal fallback naming any other radix.
pub open spec fn unsigned_text(value: u64, radix: u8) -> Seq<char> {
    if radix == 2 {
        radix_digits(value as nat, 2)
    } else if radix == 8 {
        radix_digits(value as nat, 8)
    } else if radix == 10 {
        dec_digits(value as nat)
    } else if radix == 16 {
        "0x"@ + radix_digits(value as nat, 16)
    } else {
        dec_digits(value as nat) + " (base "@ + dec_digits(radix as nat) + ")"@
    }
}

/// The space-separated two-hex-digit groups for a run of bytes, each
/// group preceded by one space.
pub open spec fn hex_groups(bs: Seq<u8>) -> Seq<char>
    decreases bs.len(),
{
    if bs.len() == 0 {
        Seq::<char>::empty()
    } else {
        hex_groups(bs.drop_last()) + seq![' '] + hex_byte(bs.last())
    }
}

/// The rendering of a `Bytes` value: its length, then up to the first 16
/// bytes in hex, then an ellipsis marker if any byte went unshown.
pub open spec fn bytes_text(bs: Seq<u8>) -> Seq<char> {
    dec_digits(bs.len()) + " B ["@ + hex_groups(
        if bs.len() <= 16 {
            bs
        } else {
            bs.take(16)
        },
    ) + (if bs.len() > 16 {
        " ..."@
    } else {
        Seq::<char>::empty()
    }) + " ]"@
}

/// The full rendering of a value at indent level `ind`.
///
/// Every variant has a defined rendering: the function is total.
pub open spec fn pretty_text(v: Val, ind: nat) -> Seq<char>
    decreases v, 2int,
{
    match v {
        Val::Signed(i) => signed_text(i),
        Val::Unsigned { value, radix } => unsigned_text(value, radix),
        Val::Enum(i, label) => dec_digits(i as nat) + " ("@ + label@ + ")"@,
        Val::String(s) => s@,
        Val::Address { bytes, encoded } => encoded@,
        Val::Subpacket(children) => seq!['\n'] + children_text(children@, ind),
        Val::Bytes(bytes) => bytes_text(bytes@),
        Val::Error(e) => "Error: "@ + error_text(e),
        Val::Warning(w) => "Warning: "@ + error_text(w),
    }
}

/// One line of a `Subpacket` body: the indentation for level `ind`, the
/// field name, `: `, then the child's own rendering one level deeper --
/// or the bracketed error text if the child failed.
pub open spec fn child_line(c: NamedValue, ind: nat) -> Seq<char>
    decreases c, 1int,
{
    sub_indent(ind) + c.0@ + ": "@ + (match c.1 {
        Ok(v) => pretty_text(v, ind + 1),
        Err(e) => "<< Error: "@ + error_text(e) + " >>"@,
    })
}

/// The newline-joined lines for the children of a `Subpacket`, one line
/// per child, in order.
pub open spec fn children_text(cs: Seq<NamedValue>, ind: nat) -> Seq<char>
    decreases cs, 2int,
{
    if cs.len() == 0 {
        Seq::<char>::empty()
    } else if cs.len() == 1 {
        child_line(cs[0], ind)
    } else {
        child_line(cs[0], ind) + seq!['\n'] + children_text(cs.drop_first(), ind)
    }
}

/// Appending one more child extends the joined lines by a separator
/// (absent before the first line) and that child's line.
proof fn lemma_children_take_succ(cs: Seq<NamedValue>, ind: nat, i: int)
    requires
        0 <= i < cs.len(),
    ensures
        children_text(cs.take(i + 1), ind) == children_text(cs.take(i), ind) + (if i == 0 {
            Seq::<char>::empty()
        } else {
            seq!['\n']
        }) + child_line(cs[i], ind),
    decreases i,
{
    if i == 0 {
        assert(cs.take(1).len() == 1);
        assert(cs.take(1)[0] == cs[0]);
        assert(children_text(cs.take(1), ind) =~= children_text(cs.take(0), ind)
            + Seq::<char>::empty() + child_line(cs[0], ind));
    } else {
        let rest = cs.drop_first();
        lemma_children_take_succ(rest, ind, i - 1);
        assert(cs.take(i + 1).drop_first() =~= rest.take(i));
        assert(cs.take(i).drop_first() =~= rest.take(i - 1));
        assert(cs.take(i + 1)[0] == cs[0]);
        assert(cs.take(i)[0] == cs[0]);
        assert(rest[i - 1] == cs[i]);
        if i == 1 {
            assert(children_text(cs.take(2), ind) == child_line(cs[0], ind) + seq!['\n']
                + children_text(rest.take(1), ind));
            assert(children_text(cs.take(2), ind) =~= children_text(cs.take(1), ind)
                + seq!['\n'] + child_line(cs[1], ind));
        } else {
            assert(children_text(cs.take(i + 1), ind) == child_line(cs[0], ind) + seq!['\n']
                + children_text(rest.take(i), ind));
            assert(children_text(cs.take(i), ind) == child_line(cs[0], ind) + seq!['\n']
                + children_text(rest.take(i - 1), ind));
            assert(children_text(cs.take(i + 1), ind) =~= children_text(cs.take(i), ind)
                + seq!['\n'] + child_line(cs[i], ind));
        }
    }
}

/// The number of newline characters in a piece of rendered text.
pub open spec fn newline_count(s: Seq<char>) -> nat {
    s.filter(|c: char| c == '\n').len()
}

/// Whether a piece of rendered text stays on one line.
pub open spec fn single_line(s: Seq<char>) -> bool {
    newline_count(s) == 0
}

/// The lines of a `Subpacket` body, one per child, in order.
pub open spec fn child_lines(cs: Seq<NamedValue>, ind: nat) -> Seq<Seq<char>> {
    cs.map(|i: int, c: NamedValue| child_line(c, ind))
}

/// Lines joined by single newlines.
pub open spec fn join_lines(ls: Seq<Seq<char>>) -> Seq<char>
    decreases ls.len(),
{
    if ls.len() == 0 {
        Seq::<char>::empty()
    } else if ls.len() == 1 {
        ls[0]
    } else {
        ls[0] + seq!['\n'] + join_lines(ls.drop_first())
    }
}

/// A run of spaces is as long as the count it was asked for.
proof fn lemma_spaces_len(n: nat)
    ensures
        spaces(n).len() == n,
    decreases n,
{
    if n > 0 {
        lemma_spaces_len((n - 1) as nat);
    }
}

/// Each shown byte contributes one three-character ` xx` group.
proof fn lemma_hex_groups_len(bs: Seq<u8>)
    ensures
        hex_groups(bs).len() == 3 * bs.len(),
    decreases bs.len(),
{
    if bs.len() > 0 {
        lemma_hex_groups_len(bs.drop_last());
    }
}

/// The body of a `Subpacket` is exactly the newline-join of its
/// children's lines.
proof fn lemma_children_is_join(cs: Seq<NamedValue>, ind: nat)
    ensures
        children_text(cs, ind) == join_lines(child_lines(cs, ind)),
    decreases cs.len(),
{
    if cs.len() == 0 {
    } else if cs.len() == 1 {
        assert(child_lines(cs, ind)[0] == child_line(cs[0], ind));
    } else {
        lemma_children_is_join(cs.drop_first(), ind);
        assert(child_lines(cs, ind).drop_first() =~= child_lines(cs.drop_first(), ind));
        assert(child_lines(cs, ind)[0] == child_line(cs[0], ind));
    }
}

/// A lone newline counts as one newline.
proof fn lemma_newline_count_single()
    ensures
        newline_count(seq!['\n']) == 1,
{
    reveal_with_fuel(Seq::<_>::filter, 2);
    assert(seq!['\n'].drop_last() =~= Seq::<char>::empty());
    assert(seq!['\n'].filter(|c: char| c == '\n') =~= seq!['\n']);
}

/// Newline counting splits over concatenation.
proof fn lemma_newline_count_add(a: Seq<char>, b: Seq<char>)
    ensures
        newline_count(a + b) == newline_count(a) + newline_count(b),
{
    Seq::<char>::filter_distributes_over_add(a, b, |c: char| c == '\n');
}

/// Joining `n` single-line lines takes `n - 1` newlines.
proof fn lemma_join_newlines(ls: Seq<Seq<char>>)
    requires
        ls.len() >= 1,
        forall|k: int| 0 <= k < ls.len() ==> single_line(#[trigger] ls[k]),
    ensures
        newline_count(join_lines(ls)) == ls.len() - 1,
    decreases ls.len(),
{
    if ls.len() == 1 {
        assert(single_line(ls[0]));
    } else {
        lemma_join_newlines(ls.drop_first());
        lemma_newline_count_add(ls[0] + seq!['\n'], join_lines(ls.drop_first()));
        lemma_newline_count_add(ls[0], seq!['\n']);
        lemma_newline_count_single();
        assert(single_line(ls[0]));
    }
}

/// Law: a `Bytes` value renders its length, then one two-hex-digit
/// group for each of the first 16 bytes -- all of them when at most 16
/// are present -- and the ellipsis marker exactly when bytes went
/// unshown. Each group takes three characters (a space and two digits),
/// so more than 16 bytes always show exactly 16 groups.
pub proof fn lemma_bytes_rendering(v: Vec<u8>, ind: nat)
    ensures
        v@.len() <= 16 ==> pretty_text(Val::Bytes(v), ind) == dec_digits(v@.len()) + " B ["@
            + hex_groups(v@) + " ]"@,
        v@.len() <= 16 ==> hex_groups(v@).len() == 3 * v@.len(),
        v@.len() > 16 ==> pretty_text(Val::Bytes(v), ind) == dec_digits(v@.len()) + " B ["@
            + hex_groups(v@.take(16)) + " ..."@ + " ]"@,
        v@.len() > 16 ==> hex_groups(v@.take(16)).len() == 3 * 16,
{
    if v@.len() <= 16 {
        assert(pretty_text(Val::Bytes(v), ind) =~= dec_digits(v@.len()) + " B ["@
            + hex_groups(v@) + " ]"@);
        lemma_hex_groups_len(v@);
    } else {
        assert(pretty_text(Val::Bytes(v), ind) =~= dec_digits(v@.len()) + " B ["@
            + hex_groups(v@.take(16)) + " ..."@ + " ]"@);
        lemma_hex_groups_len(v@.take(16));
    }
}

/// Law: a `Subpacket` rendered at level `ind` opens with one newline
/// and then carries one line per child, in wire order, each line the
/// indentation of level `ind + 1` (two spaces per level), the child's
/// name, `: `, and the child's own rendering -- a failing child renders
/// as a bracketed error instead, so no field is ever dropped because a
/// sibling failed. When every child stays on a single line, the whole
/// text holds exactly as many newlines as there are children.
pub proof fn lemma_subpacket_lines(children: Vec<NamedValue>, ind: nat)
    ensures
        pretty_text(Val::Subpacket(children), ind) == seq!['\n'] + join_lines(
            child_lines(children@, ind),
        ),
        child_lines(children@, ind).len() == children@.len(),
        forall|k: int|
            0 <= k < children@.len() ==> (#[trigger] child_lines(children@, ind)[k]) == sub_indent(
                ind,
            ) + child_lines(children@, ind)[k].skip(2 * (ind + 1) as int),
        forall|k: int|
            0 <= k < children@.len() ==> (#[trigger] child_lines(children@, ind)[k]).take(
                2 * (ind + 1) as int,
            ) == sub_indent(ind),
        (children@.len() >= 1 && (forall|k: int|
            0 <= k < children@.len() ==> single_line(#[trigger] child_lines(children@, ind)[k])))
            ==> newline_count(pretty_text(Val::Subpacket(children), ind)) == children@.len(),
{
    lemma_children_is_join(children@, ind);
    lemma_spaces_len(2 * (ind + 1));
    assert forall|k: int| 0 <= k < children@.len() implies (#[trigger] child_lines(
        children@,
        ind,
    )[k]).take(2 * (ind + 1) as int) == sub_indent(ind) && child_lines(children@, ind)[k] == sub_indent(
        ind,
    ) + child_lines(children@, ind)[k].skip(2 * (ind + 1) as int) by {
        let line = child_line(children@[k], ind);
        assert(line.take(2 * (ind + 1) as int) =~= sub_indent(ind));
        assert(line =~= sub_indent(ind) + line.skip(2 * (ind + 1) as int));
    }
    if children@.len() >= 1 && (forall|k: int|
        0 <= k < children@.len() ==> single_line(#[trigger] child_lines(children@, ind)[k])) {
        lemma_join_newlines(child_lines(children@, ind));
        lemma_newline_count_add(seq!['\n'], join_lines(child_lines(children@, ind)));
        lemma_newline_count_single();
    }
}

/// Two more spaces of indentation step one level deeper.
proof fn lemma_spaces_step(n: nat)
    ensures
        spaces(n) + "  "@ == spaces(n + 2),
{
    reveal_strlit("  ");
    assert(spaces(n + 2) == spaces(n + 1).push(' '));
    assert(spaces(n + 1) == spaces(n).push(' '));
    assert(spaces(n) + "  "@ =~= spaces(n + 2));
}

/// The indentation string put before the children of a node rendered at
/// `level`: two spaces per level, one level deeper than `level` itself.
fn make_indent(level: usize) -> (r: String)
    ensures
        r@ == sub_indent(level as nat),
{
    let mut s = String::new();
    s.append("  ");
    proof {
        reveal_strlit("  ");
        assert(spaces(1nat) == spaces(0nat).push(' '));
        assert(s@ =~= spaces(2nat));
    }
    let mut i: usize = 0;
    while i < level
        invariant
            i <= level,
            s@ == spaces(2 * (i as nat + 1)),
        decreases level - i,
    {
        s.append("  ");
        proof {
            lemma_spaces_step(2 * (i as nat + 1));
        }
        i += 1;
    }
    s
}

/// Render `v` at indent level `level`; `ind` is the indentation string
/// for `v`'s own children, kept in step with `level`.
fn render(v: &Val, ind: &str, level: Ghost<nat>) -> (r: String)
    requires
        ind@ == sub_indent(level@),
    ensures
        r@ == pretty_text(*v, level@),
    decreases *v,
{
    match v {
        Val::Signed(i) => {
            let r = dec_str_i64(*i);
            assert(r@ =~= signed_text(*i));
            r
        },
        Val::Unsigned { value, radix } => {
            let value = *value;
            let radix = *radix;
            if radix == 2 {
                radix_str(value, 2)
            } else if radix == 8 {
                radix_str(value, 8)
            } else if radix == 10 {
                dec_str_u64(value)
            } else if radix == 16 {
                let mut s = String::new();
                s.append("0x");
                let d = radix_str(value, 16);
                s.append(d.as_str());
                s
            } else {
                let mut s = dec_str_u64(value);
                s.append(" (base ");
                let d = dec_str_u64(radix as u64);
                s.append(d.as_str());
                s.append(")");
                assert(s@ =~= unsigned_text(value, radix));
                s
            }
        },
        Val::Enum(i, label) => {
            let mut s = dec_str_u64(*i);
            s.append(" (");
            s.append(label.as_str());
            s.append(")");
            assert(s@ =~= pretty_text(*v, level@));
            s
        },
        Val::String(s) => s.clone(),
        Val::Address { bytes, encoded } => encoded.clone(),
        Val::Subpacket(children) => {
            let ghost cs = children@;
            let mut s = String::new();
            s.append("\n");
            let n = children.len();
            let mut i: usize = 0;
            proof {
                reveal_strlit("\n");
                assert(cs.take(0) =~= Seq::<NamedValue>::empty());
                assert(s@ =~= seq!['\n'] + children_text(cs.take(0), level@));
            }
            while i < n
                invariant
                    i <= n,
                    n == cs.len(),
                    children@ == cs,
                    *v == Val::Subpacket(*children),
                    ind@ == sub_indent(level@),
                    s@ == seq!['\n'] + children_text(cs.take(i as int), level@),
                decreases n - i,
            {
                if i > 0 {
                    s.append("\n");
                }
                s.append(ind);
                s.append(children[i].0);
                s.append(": ");
                match &children[i].1 {
                    Ok(cv) => {
                        let mut cind = String::new();
                        cind.append(ind);
                        cind.append("  ");
                        proof {
                            lemma_spaces_step(2 * (level@ + 1));
                            assert(*children == v->Subpacket_0);
                            assert(decreases_to!(*v => v->Subpacket_0));
                            assert(decreases_to!(*children => children@));
                            assert(decreases_to!(children@ => children@[i as int]));
                            assert(decreases_to!(children@[i as int] => children@[i as int].1));
                            assert(decreases_to!(children@[i as int].1 => *cv));
                        }
                        let sub = render(cv, cind.as_str(), Ghost(level@ + 1));
                        s.append(sub.as_str());
                    },
                    Err(e) => {
                        s.append("<< Error: ");
                        let m = e.message();
                        s.append(m.as_str());
                        s.append(" >>");
                    },
                }
                proof {
                    reveal_strlit("\n");
                    lemma_children_take_succ(cs, level@, i as int);
                    assert(s@ =~= seq!['\n'] + children_text(cs.take(i + 1), level@));
                }
                i += 1;
            }
            proof {
                assert(cs.take(n as int) =~= cs);
            }
            s
        },
        Val::Bytes(bytes) => {
            let len = bytes.len();
            let mut s = dec_str_u64(len as u64);
            s.append(" B [");
            let shown: usize = if len <= 16 {
                len
            } else {
                16
            };
            let ghost shown_bytes: Seq<u8> = if bytes@.len() <= 16 {
                bytes@
            } else {
                bytes@.take(16)
            };
            let mut i: usize = 0;
            while i < shown
                invariant
                    i <= shown,
                    shown <= bytes.len(),
                    shown_bytes == (if bytes@.len() <= 16 {
                        bytes@
                    } else {
                        bytes@.take(16)
                    }),
                    shown == shown_bytes.len(),
                    s@ == dec_digits(bytes@.len()) + " B ["@ + hex_groups(bytes@.take(i as int)),
                decreases shown - i,
            {
                s.append(" ");
                let b = bytes[i];
                proof {
                    reveal_strlit(" ");
                    assert(bytes@.take(i + 1).drop_last() =~= bytes@.take(i as int));
                    assert(bytes@.take(i + 1).last() == bytes@[i as int]);
                }
                let hi = radix_str((b / 16) as u64, 16);
                s.append(hi.as_str());
                let lo = radix_str((b % 16) as u64, 16);
                s.append(lo.as_str());
                assert(s@ =~= dec_digits(bytes@.len()) + " B ["@ + hex_groups(
                    bytes@.take(i + 1),
                ));
                i += 1;
            }
            proof {
                assert(bytes@.take(shown as int) =~= shown_bytes);
            }
            if len > 16 {
                s.append(" ...");
            }
            s.append(" ]");
            assert(s@ =~= bytes_text(bytes@));
            s
        },
        Val::Error(e) => {
            let mut s = String::new();
            s.append("Error: ");
            let m = e.message();
            s.append(m.as_str());
            s
        },
        Val::Warning(w) => {
            let mut s = String::new();
            s.append("Warning: ");
            let m = w.message();
            s.append(m.as_str());
            s
        },
    }
}

/// The message given when an integral input cannot be converted to the
/// unsigned 64-bit representation.
pub open spec fn to_u64_error_text(x: int) -> Seq<char> {
    "Cannot convert "@ + int_text(x) + " to u64"@
}

impl Val {
    /// Build an `Unsigned` value from any integral input and a display
    /// radix, converting to the 64-bit representation. An input that
    /// does not fit yields `InvalidData`, never a panic or a truncation.
    pub fn unsigned<T: WireInt>(x: T, radix: u8) -> (r: Outcome<Val>)
        ensures
            0 <= x.as_math() ==> (r matches Outcome::<Val>::Ok(v) && v matches Val::Unsigned {
                value: vv,
                radix: rr,
            } && vv as int == x.as_math() && rr == radix),
            x.as_math() < 0 ==> (r matches Outcome::<Val>::Err(e) && e matches Error::InvalidData(
                m,
            ) && m@ == to_u64_error_text(x.as_math())),
    {
        match x.to_u64_checked() {
            Some(value) => Ok(Val::Unsigned { value, radix }),
            None => {
                let mut s = String::new();
                s.append("Cannot convert ");
                let d = x.dec_text();
                s.append(d.as_str());
                s.append(" to u64");
                assert(s@ =~= to_u64_error_text(x.as_math()));
                Err(Error::InvalidData(s))
            },
        }
    }

    /// Build an `Unsigned` value displayed in binary.
    pub fn base2<T: WireInt>(x: T) -> (r: Outcome<Val>)
        ensures
            0 <= x.as_math() ==> (r matches Outcome::<Val>::Ok(v) && v matches Val::Unsigned {
                value: vv,
                radix: rr,
            } && vv as int == x.as_math() && rr == 2),
            x.as_math() < 0 ==> (r matches Outcome::<Val>::Err(e) && e matches Error::InvalidData(
                m,
            ) && m@ == to_u64_error_text(x.as_math())),
    {
        Val::unsigned(x, 2)
    }

    /// Build an `Unsigned` value displayed in decimal.
    pub fn base10<T: WireInt>(x: T) -> (r: Outcome<Val>)
        ensures
            0 <= x.as_math() ==> (r matches Outcome::<Val>::Ok(v) && v matches Val::Unsigned {
                value: vv,
                radix: rr,
            } && vv as int == x.as_math() && rr == 10),
            x.as_math() < 0 ==> (r matches Outcome::<Val>::Err(e) && e matches Error::InvalidData(
                m,
            ) && m@ == to_u64_error_text(x.as_math())),
    {
        Val::unsigned(x, 10)
    }

    /// Build an `Unsigned` value displayed in hexadecimal.
    pub fn base16<T: WireInt>(x: T) -> (r: Outcome<Val>)
        ensures
            0 <= x.as_math() ==> (r matches Outcome::<Val>::Ok(v) && v matches Val::Unsigned {
                value: vv,
                radix: rr,
            } && vv as int == x.as_math() && rr == 16),
            x.as_math() < 0 ==> (r matches Outcome::<Val>::Err(e) && e matches Error::InvalidData(
                m,
            ) && m@ == to_u64_error_text(x.as_math())),
    {
        Val::unsigned(x, 16)
    }

    /// Build a `String` value from borrowed text.
    pub fn str(s: &str) -> (r: Val)
        ensures
            (r matches Val::String(t) && t@ == s@),
    {
        Val::String(s.to_owned())
    }

    /// Render this value as indented human-readable text; `indent_level`
    /// is the nesting depth this value is being rendered at.
    pub fn pretty_print(self, indent_level: usize) -> (r: String)
        ensures
            r@ == pretty_text(self, indent_level as nat),
    {
        let ind = make_indent(indent_level);
        render(&self, ind.as_str(), Ghost(indent_level as nat))
    }
}

} // verus!
