//! External names.
//!
//! These are identifiers for entities defined outside the current function:
//! functions, globals, runtime routines. The code generator does not give
//! them any meaning of its own; it only carries them into relocations. A
//! name is either a reference into a user-defined symbol table, a short
//! printable byte string, or a well-known runtime routine.

use vstd::prelude::*;
use vstd::slice::slice_to_vec;
use vstd::string::{StrSliceExecFns, StringSliceAdditionalSpecFns};
use crate::libcall::{LibCall, libcall_of_text, libcall_text};
use crate::text::{dec_chars, parse_u32_range, push_char, push_dec_u32, push_str_chars, u32_text, u32_text_val};

verus! {

/// The name of an external entity.
#[derive(Debug, Clone)]
pub enum ExternalName {
    /// A placeholder for a name that is not yet provided.
    DefaultName,
    /// An index in an index space, itself identified by an index
    /// (two-level indexing).
    Index {
        /// Index of the index space itself.
        space: u32,
        /// Index into the index space.
        index: u32,
    },
    /// A symbol name, as printable ASCII bytes.
    Name(Vec<u8>),
    /// A well-known runtime library routine.
    LibCall(LibCall),
}

/// The mathematical value of an `ExternalName`.
pub enum ExternalNameView {
    /// A placeholder for a name that is not yet provided.
    DefaultName,
    /// An index in an index space identified by an index.
    Index {
        /// Index of the index space itself.
        space: u32,
        /// Index into the index space.
        index: u32,
    },
    /// A symbol name, as a sequence of bytes.
    Name(Seq<u8>),
    /// A well-known runtime library routine.
    LibCall(LibCall),
}

impl View for ExternalName {
    type V = ExternalNameView;

    open spec fn view(&self) -> ExternalNameView {
        match self {
            ExternalName::DefaultName => ExternalNameView::DefaultName,
            ExternalName::Index { space, index } => ExternalNameView::Index {
                space: *space,
                index: *index,
            },
            ExternalName::Name(v) => ExternalNameView::Name(v@),
            ExternalName::LibCall(lc) => ExternalNameView::LibCall(*lc),
        }
    }
}

/// Are two byte vectors equal element for element?
fn bytes_eq(a: &Vec<u8>, b: &Vec<u8>) -> (r: bool)
    ensures
        r == (a@ == b@),
{
    if a.len() != b.len() {
        return false;
    }
    let n = a.len();
    let mut i: usize = 0;
    while i < n
        invariant
            n == a@.len(),
            n == b@.len(),
            i <= n,
            forall|k: int| 0 <= k < i ==> a@[k] == b@[k],
        decreases n - i,
    {
        if a[i] != b[i] {
            return false;
        }
        i = i + 1;
    }
    proof {
        assert(a@ =~= b@);
    }
    true
}

impl PartialEq for ExternalName {
    fn eq(&self, other: &Self) -> (r: bool) {
        match (self, other) {
            (ExternalName::DefaultName, ExternalName::DefaultName) => true,
            (
                ExternalName::Index { space: s1, index: i1 },
                ExternalName::Index { space: s2, index: i2 },
            ) => *s1 == *s2 && *i1 == *i2,
            (ExternalName::Name(a), ExternalName::Name(b)) => bytes_eq(a, b),
            (ExternalName::LibCall(a), ExternalName::LibCall(b)) => *a == *b,
            _ => false,
        }
    }
}

impl Eq for ExternalName {
}

impl vstd::std_specs::cmp::PartialEqSpecImpl for ExternalName {
    open spec fn obeys_eq_spec() -> bool {
        true
    }

    open spec fn eq_spec(&self, other: &Self) -> bool {
        self@ == other@
    }
}

/// A byte that the textual form can carry: easily printable ASCII, with the
/// quote and the backslash left out.
pub open spec fn printable_byte(b: u8) -> bool {
    0x20 <= b <= 0x7e && b != 0x22 && b != 0x5c
}

/// Is every byte of the sequence printable?
pub open spec fn printable_bytes(v: Seq<u8>) -> bool {
    forall|i: int| 0 <= i < v.len() ==> printable_byte(#[trigger] v[i])
}

impl ExternalName {
    /// Creates a new external name from an owned sequence of bytes.
    ///
    /// Only easily printable ASCII characters are supported for now, so
    /// that the textual form can always represent the name.
    pub fn with_bytes(name: Vec<u8>) -> (r: ExternalName)
        requires
            printable_bytes(name@),
        ensures
            r@ == ExternalNameView::Name(name@),
    {
        ExternalName::Name(name)
    }

    /// Creates a new external name from a string.
    pub fn clone_from_str(name: &str) -> (r: ExternalName)
        requires
            printable_bytes(name.spec_bytes()),
        ensures
            r@ == ExternalNameView::Name(name.spec_bytes()),
    {
        ExternalName::clone_from_bytes(name.as_bytes())
    }

    /// Creates a new external name from a byte sequence.
    pub fn clone_from_bytes(name: &[u8]) -> (r: ExternalName)
        requires
            printable_bytes(name@),
        ensures
            r@ == ExternalNameView::Name(name@),
    {
        ExternalName::with_bytes(slice_to_vec(name))
    }

    /// Create a new external name from integer indices.
    pub fn index(space: u32, index: u32) -> (r: Self)
        ensures
            r@ == (ExternalNameView::Index { space, index }),
    {
        ExternalName::Index { space, index }
    }
}

/// May a byte stand in a name written after `@` without quotes: a C-like
/// identifier character.
pub open spec fn ident_byte(b: u8) -> bool {
    (48 <= b <= 57) || (65 <= b <= 90) || (97 <= b <= 122) || b == 95
}

/// May a name be written without quotes: non-empty, not starting with a
/// digit, and made of identifier characters only.
pub open spec fn bare_name_ok(v: Seq<u8>) -> bool {
    v.len() > 0 && !(48 <= v[0] <= 57) && forall|i: int|
        0 <= i < v.len() ==> ident_byte(#[trigger] v[i])
}

/// Can the textual form carry this name? Only a symbol name with an
/// unprintable byte cannot be rendered.
pub open spec fn renderable(n: ExternalNameView) -> bool {
    n matches ExternalNameView::Name(v) ==> printable_bytes(v)
}

/// The characters that a byte sequence spells, one per byte.
pub open spec fn bytes_chars(v: Seq<u8>) -> Seq<char> {
    v.map_values(|b: u8| b as char)
}

/// The textual form of an external name: `@-` for the placeholder,
/// `@[space:index]` for a table reference, `@<routine>` for a runtime
/// routine, and `@name` or `@"name"` for a symbol name, quoted unless the
/// name reads as a C-like identifier.
pub open spec fn ext_name_text(n: ExternalNameView) -> Seq<char> {
    match n {
        ExternalNameView::DefaultName => "@-"@,
        ExternalNameView::Index { space, index } => "@["@ + dec_chars(space as nat) + ":"@
            + dec_chars(index as nat) + "]"@,
        ExternalNameView::Name(v) => if bare_name_ok(v) {
            "@"@ + bytes_chars(v)
        } else {
            "@\""@ + bytes_chars(v) + "\""@
        },
        ExternalNameView::LibCall(lc) => "@<"@ + libcall_text(lc) + ">"@,
    }
}

/// Append the characters of a name's bytes to `s`.
fn push_name_chars(s: &mut String, v: &Vec<u8>)
    ensures
        final(s)@ == old(s)@ + bytes_chars(v@),
{
    let n = v.len();
    let mut i: usize = 0;
    while i < n
        invariant
            n == v@.len(),
            i <= n,
            s@ == old(s)@ + bytes_chars(v@.subrange(0, i as int)),
        decreases n - i,
    {
        push_char(s, v[i] as char);
        proof {
            assert(s@ =~= old(s)@ + bytes_chars(v@.subrange(0, i + 1 as int)));
        }
        i = i + 1;
    }
    proof {
        assert(v@.subrange(0, n as int) =~= v@);
    }
}

/// May the whole name be written without quotes?
fn is_bare_name(v: &Vec<u8>) -> (r: bool)
    ensures
        r == bare_name_ok(v@),
{
    if v.len() == 0 {
        return false;
    }
    let first = v[0];
    if 48 <= first && first <= 57 {
        return false;
    }
    let n = v.len();
    let mut i: usize = 0;
    while i < n
        invariant
            n == v@.len(),
            i <= n,
            forall|k: int| 0 <= k < i ==> ident_byte(#[trigger] v@[k]),
        decreases n - i,
    {
        let b = v[i];
        if !((48 <= b && b <= 57) || (65 <= b && b <= 90) || (97 <= b && b <= 122) || b == 95) {
            return false;
        }
        i = i + 1;
    }
    true
}

impl ExternalName {
    /// The textual form of the name.
    ///
    /// Every name can be rendered except a symbol name holding an
    /// unprintable byte, which is refused.
    #[verifier::loop_isolation(false)]
    pub fn to_text(&self) -> (r: Result<String, ()>)
        ensures
            r matches Ok(t) ==> t@ == ext_name_text(self@),
            r is Ok <==> renderable(self@),
    {
        match self {
            ExternalName::DefaultName => {
                let mut s = String::new();
                push_str_chars(&mut s, "@-");
                proof {
                    assert(s@ =~= ext_name_text(self@));
                }
                Ok(s)
            },
            ExternalName::Index { space, index } => {
                let mut s = String::new();
                push_str_chars(&mut s, "@[");
                push_dec_u32(&mut s, *space);
                push_str_chars(&mut s, ":");
                push_dec_u32(&mut s, *index);
                push_str_chars(&mut s, "]");
                proof {
                    assert(s@ =~= ext_name_text(self@));
                }
                Ok(s)
            },
            ExternalName::LibCall(lc) => {
                let mut s = String::new();
                push_str_chars(&mut s, "@<");
                let t = lc.to_text();
                push_str_chars(&mut s, t.as_str());
                push_str_chars(&mut s, ">");
                proof {
                    assert(s@ =~= ext_name_text(self@));
                }
                Ok(s)
            },
            ExternalName::Name(v) => {
                if is_bare_name(v) {
                    // An identifier-like name stands after `@` without
                    // quotes, and is printable as it stands.
                    proof {
                        assert forall|i: int| 0 <= i < v@.len() implies printable_byte(
                            #[trigger] v@[i],
                        ) by {
                            assert(ident_byte(v@[i]));
                        }
                    }
                    let mut s = String::new();
                    push_char(&mut s, '@');
                    push_name_chars(&mut s, v);
                    proof {
                        reveal_strlit("@");
                        assert(s@ =~= ext_name_text(self@));
                    }
                    Ok(s)
                } else {
                    // Anything else is quoted, and must be printable.
                    let n = v.len();
                    let mut i: usize = 0;
                    while i < n
                        invariant
                            n == v@.len(),
                            i <= n,
                            forall|k: int| 0 <= k < i ==> printable_byte(#[trigger] v@[k]),
                        decreases n - i,
                    {
                        let b = v[i];
                        if b < 0x20 || b > 0x7e || b == 0x22 || b == 0x5c {
                            proof {
                                assert(!printable_byte(v@[i as int]));
                                assert(!printable_bytes(v@));
                            }
                            return Err(());
                        }
                        i = i + 1;
                    }
                    let mut s = String::new();
                    push_char(&mut s, '@');
                    push_char(&mut s, '"');
                    push_name_chars(&mut s, v);
                    push_char(&mut s, '"');
                    proof {
                        reveal_strlit("@\"");
                        reveal_strlit("\"");
                        assert(s@ =~= ext_name_text(self@));
                    }
                    Ok(s)
                }
            },
        }
    }
}

impl Default for ExternalName {
    /// The placeholder name.
    fn default() -> (r: Self)
        ensures
            r@ == ExternalNameView::DefaultName,
    {
        ExternalName::DefaultName
    }
}

/// A printable character of a quoted name: easily printable ASCII, with the
/// quote and the backslash left out.
pub open spec fn printable_char(c: char) -> bool {
    0x20 <= c as u32 <= 0x7e && c as u32 != 0x22 && c as u32 != 0x5c
}

/// A C-like identifier character.
pub open spec fn ident_char(c: char) -> bool {
    (48 <= c as u32 <= 57) || (65 <= c as u32 <= 90) || (97 <= c as u32 <= 122) || c as u32 == 95
}

/// Does position `i` hold the only colon of `c`?
pub open spec fn is_the_colon(c: Seq<char>, i: int) -> bool {
    0 <= i < c.len() && c[i] == ':' && (forall|j: int|
        0 <= j < c.len() && c[j] == ':' ==> j == i)
}

/// Does `c` hold exactly one colon?
pub open spec fn one_colon(c: Seq<char>) -> bool {
    exists|i: int| is_the_colon(c, i)
}

/// What the text between `@[` and `]` means: two numbers either side of a
/// single colon.
pub open spec fn spec_parse_index(c: Seq<char>) -> Result<ExternalNameView, ()> {
    if one_colon(c) {
        let i = choose|i: int| is_the_colon(c, i);
        let sp = c.subrange(0, i);
        let ix = c.subrange(i + 1, c.len() as int);
        if u32_text(sp) && u32_text(ix) {
            Ok(
                ExternalNameView::Index {
                    space: u32_text_val(sp) as u32,
                    index: u32_text_val(ix) as u32,
                },
            )
        } else {
            Err(())
        }
    } else {
        Err(())
    }
}

/// What a text means as an external name, tried in this order:
/// - `@"..."`: a quoted symbol name of printable characters;
/// - `@-...`: the placeholder;
/// - `@<...>`: a runtime routine, by its exact name;
/// - `@[...:...]`: a table reference, two numbers around one colon;
/// - `@...`: a bare symbol name of identifier characters (possibly empty);
/// - anything else is refused.
pub open spec fn spec_parse(s: Seq<char>) -> Result<ExternalNameView, ()> {
    if s.len() >= 2 && s[0] == '@' && s[1] == '"' {
        if s.len() >= 3 && s[s.len() - 1] == '"' {
            let content = s.subrange(2, s.len() - 1);
            if forall|i: int| 0 <= i < content.len() ==> printable_char(#[trigger] content[i]) {
                Ok(ExternalNameView::Name(content.map_values(|c: char| c as u8)))
            } else {
                Err(())
            }
        } else {
            Err(())
        }
    } else if s.len() >= 2 && s[0] == '@' && s[1] == '-' {
        Ok(ExternalNameView::DefaultName)
    } else if s.len() >= 2 && s[0] == '@' && s[1] == '<' {
        if s.len() >= 3 && s[s.len() - 1] == '>' {
            match libcall_of_text(s.subrange(2, s.len() - 1)) {
                Ok(lc) => Ok(ExternalNameView::LibCall(lc)),
                Err(e) => Err(e),
            }
        } else {
            Err(())
        }
    } else if s.len() >= 2 && s[0] == '@' && s[1] == '[' {
        if s.len() >= 3 && s[s.len() - 1] == ']' {
            spec_parse_index(s.subrange(2, s.len() - 1))
        } else {
            Err(())
        }
    } else if s.len() >= 1 && s[0] == '@' {
        let content = s.subrange(1, s.len() as int);
        if forall|i: int| 0 <= i < content.len() ==> ident_char(#[trigger] content[i]) {
            Ok(ExternalNameView::Name(content.map_values(|c: char| c as u8)))
        } else {
            Err(())
        }
    } else {
        Err(())
    }
}

/// The view of a parse result.
pub open spec fn parsed_view(r: Result<ExternalName, ()>) -> Result<ExternalNameView, ()> {
    match r {
        Ok(n) => Ok(n@),
        Err(e) => Err(e),
    }
}

impl ExternalName {
    /// Parse the textual form of an external name, as `to_text` and the
    /// textual intermediate representation write it.
    ///
    /// The two-character text `@"` is left out: it opens a quoted name
    /// that has no room for its closing quote.
    #[verifier::loop_isolation(false)]
    pub fn from_text(s: &str) -> (r: Result<ExternalName, ()>)
        requires
            !(s@.len() == 2 && s@[0] == '@' && s@[1] == '"'),
        ensures
            parsed_view(r) == spec_parse(s@),
    {
        let n = s.unicode_len();
        if n >= 2 && s.get_char(0) == '@' && s.get_char(1) == '"' {
            assert(n >= 3);
            if s.get_char(n - 1) == '"' {
                let ghost content = s@.subrange(2, s@.len() - 1);
                let mut v: Vec<u8> = Vec::new();
                let mut i: usize = 2;
                while i < n - 1
                    invariant
                        2 <= i <= n - 1,
                        v@ == content.subrange(0, i - 2).map_values(|c: char| c as u8),
                        forall|k: int| 0 <= k < i - 2 ==> printable_char(#[trigger] content[k]),
                    decreases n - 1 - i,
                {
                    let c = s.get_char(i);
                    let cv = c as u32;
                    if cv < 0x20 || cv > 0x7e || cv == 0x22 || cv == 0x5c {
                        proof {
                            assert(content[i - 2] == c);
                            assert(!printable_char(c));
                        }
                        return Err(());
                    }
                    v.push(cv as u8);
                    proof {
                        assert(v@ =~= content.subrange(0, i - 1).map_values(|c: char| c as u8));
                    }
                    i = i + 1;
                }
                proof {
                    assert(content.subrange(0, (n - 3) as int) =~= content);
                    assert(v@ =~= content.map_values(|c: char| c as u8));
                }
                Ok(ExternalName::Name(v))
            } else {
                Err(())
            }
        } else if n >= 2 && s.get_char(0) == '@' && s.get_char(1) == '-' {
            Ok(ExternalName::DefaultName)
        } else if n >= 2 && s.get_char(0) == '@' && s.get_char(1) == '<' {
            if n >= 3 && s.get_char(n - 1) == '>' {
                let t = s.substring_char(2, n - 1);
                match LibCall::from_text(t) {
                    Ok(lc) => Ok(ExternalName::LibCall(lc)),
                    Err(_) => Err(()),
                }
            } else {
                Err(())
            }
        } else if n >= 2 && s.get_char(0) == '@' && s.get_char(1) == '[' {
            if n >= 3 && s.get_char(n - 1) == ']' {
                let ghost content = s@.subrange(2, s@.len() - 1);
                let hi = n - 1;
                // Find the first colon.
                let mut p: usize = 2;
                while p < hi && s.get_char(p) != ':'
                    invariant
                        2 <= p <= hi,
                        forall|k: int| 2 <= k < p ==> s@[k] != ':',
                    decreases hi - p,
                {
                    p = p + 1;
                }
                if p == hi {
                    proof {
                        // No colon at all, so there is no unique one.
                        assert forall|i: int| !is_the_colon(content, i) by {
                            if 0 <= i < content.len() {
                                assert(content[i] == s@[i + 2]);
                            }
                        }
                    }
                    return Err(());
                }
                // Make sure it is the only one.
                let mut q: usize = p + 1;
                while q < hi && s.get_char(q) != ':'
                    invariant
                        p + 1 <= q <= hi,
                        forall|k: int| p < k < q ==> s@[k] != ':',
                    decreases hi - q,
                {
                    q = q + 1;
                }
                if q < hi {
                    proof {
                        // Two distinct colons rule out a unique one.
                        assert forall|i: int| !is_the_colon(content, i) by {
                            if is_the_colon(content, i) {
                                assert(content[p - 2] == s@[p as int]);
                                assert(content[q - 2] == s@[q as int]);
                            }
                        }
                    }
                    return Err(());
                }
                proof {
                    assert forall|j: int| 0 <= j < content.len() && content[j] == ':' implies j
                        == p - 2 by {
                        assert(content[j] == s@[j + 2]);
                    }
                    assert(content[p - 2] == s@[p as int]);
                    assert(is_the_colon(content, p - 2));
                    let i0 = choose|i: int| is_the_colon(content, i);
                    assert(i0 == p - 2);
                    assert(content.subrange(0, p - 2) =~= s@.subrange(2, p as int));
                    assert(content.subrange(p - 1, content.len() as int) =~= s@.subrange(
                        p + 1,
                        hi as int,
                    ));
                }
                let space = match parse_u32_range(s, 2, p) {
                    Some(a) => a,
                    None => {
                        return Err(());
                    },
                };
                let index = match parse_u32_range(s, p + 1, hi) {
                    Some(b) => b,
                    None => {
                        return Err(());
                    },
                };
                Ok(ExternalName::Index { space, index })
            } else {
                Err(())
            }
        } else if n >= 1 && s.get_char(0) == '@' {
            let ghost content = s@.subrange(1, s@.len() as int);
            let mut v: Vec<u8> = Vec::new();
            let mut i: usize = 1;
            while i < n
                invariant
                    1 <= i <= n,
                    v@ == content.subrange(0, i - 1).map_values(|c: char| c as u8),
                    forall|k: int| 0 <= k < i - 1 ==> ident_char(#[trigger] content[k]),
                decreases n - i,
            {
                let c = s.get_char(i);
                let cv = c as u32;
                if !((48 <= cv && cv <= 57) || (65 <= cv && cv <= 90) || (97 <= cv && cv <= 122)
                    || cv == 95) {
                    proof {
                        assert(content[i - 1] == c);
                        assert(!ident_char(c));
                    }
                    return Err(());
                }
                v.push(cv as u8);
                proof {
                    assert(v@ =~= content.subrange(0, i as int).map_values(|c: char| c as u8));
                }
                i = i + 1;
            }
            proof {
                assert(content.subrange(0, (n - 1) as int) =~= content);
                assert(v@ =~= content.map_values(|c: char| c as u8));
            }
            Ok(ExternalName::Name(v))
        } else {
            Err(())
        }
    }
}

} // verus!
