//! Naming a bundled class: by hash, readably, or in camel case.
use vstd::prelude::*;
use crate::text::{
    is_byte_boundary_of,
    byte_len, byte_len_of, cat2, cat3, chars_of, is_byte_boundary, is_prefix, join,
    join_strings, owned, char_is_digit, is_digit, string_of_chars, strings_view,
    truncate_bytes,
};
use crate::types::NamingMode;

verus! {

/// The 64 lowercase hex digits of the BLAKE3 hash of the UTF-8 bytes of a text.
pub uninterp spec fn blake3_hex(text: Seq<char>) -> Seq<char>;

/// Whether `c` is a lowercase hex digit.
pub open spec fn is_lower_hex(c: char) -> bool {
    ('0' <= c && c <= '9') || ('a' <= c && c <= 'f')
}

/// `blake3::hash` of the UTF-8 bytes of `text`, written by the hash's `Display`
/// (which writes the 32 hash bytes as 64 lowercase hex digits).
#[verifier::external_body]
fn blake3_hex_of(text: &str) -> (r: String)
    ensures
        r@ == blake3_hex(text@),
        r@.len() == 64,
        forall|i: int| 0 <= i < 64 ==> is_lower_hex(#[trigger] r@[i]),
{
    format!("{}", blake3::hash(text.as_bytes()))
}

/// The first `n <= 64` hex digits of the hash of `text`.
fn hash_prefix(text: &str, n: usize) -> (r: String)
    requires
        n <= 64,
    ensures
        r@ == blake3_hex(text@).subrange(0, n as int),
        r@.len() == n,
        forall|i: int| 0 <= i < n ==> is_lower_hex(#[trigger] r@[i]),
{
    let hex = blake3_hex_of(text);
    let v = chars_of(hex.as_str());
    let r = string_of_chars(&v, 0, n);
    assert forall|i: int| 0 <= i < n implies is_lower_hex(#[trigger] r@[i]) by {
        assert(r@[i] == hex@[i]);
    }
    r
}

/// The UTF-8 length of two texts one after the other.
proof fn lemma_byte_len_concat(a: Seq<char>, b: Seq<char>)
    ensures
        byte_len(a + b) == byte_len(a) + byte_len(b),
    decreases b.len(),
{
    if b.len() == 0 {
        assert(a + b =~= a);
    } else {
        lemma_byte_len_concat(a, b.drop_last());
        assert((a + b).drop_last() =~= a + b.drop_last());
        assert((a + b).last() == b.last());
    }
}

/// Hex digits take one byte each.
proof fn lemma_byte_len_hex(s: Seq<char>)
    requires
        forall|i: int| 0 <= i < s.len() ==> is_lower_hex(#[trigger] s[i]),
    ensures
        byte_len(s) == s.len(),
    decreases s.len(),
{
    if s.len() > 0 {
        assert(is_lower_hex(s[s.len() - 1]));
        assert(forall|i: int| 0 <= i < s.drop_last().len() ==> #[trigger] s.drop_last()[i] == s[i]);
        lemma_byte_len_hex(s.drop_last());
    }
}

/// The uppercase mapping of a character, as `char::to_uppercase` gives it.
pub uninterp spec fn uppercase(c: char) -> Seq<char>;

/// `char::to_uppercase`, collected: ASCII lowercase letters map to their
/// uppercase letter and other ASCII characters to themselves.
#[verifier::external_body]
fn uppercase_of(c: char) -> (r: String)
    ensures
        r@ == uppercase(c),
        'a' <= c <= 'z' ==> r@ == seq![((c as u32) - 32) as char],
        (c as u32) < 0x80 && !('a' <= c <= 'z') ==> r@ == seq![c],
{
    c.to_uppercase().collect()
}

// ── Hash naming ─────────────────────────────────────────────────────────────

/// The hash name of a class list: `c_` and the first 12 hex digits of the hash
/// of the classes joined by spaces.
pub open spec fn hash_name(classes: Seq<Seq<char>>) -> Seq<char> {
    "c_"@ + blake3_hex(join(classes, " "@)).subrange(0, 12)
}

// ── Readable naming ─────────────────────────────────────────────────────────

/// What a class's character at `i` becomes in its readable text: a dash
/// before a digit is dropped, any other dash becomes `_`, and every other
/// character stays.
pub open spec fn readable_piece(class: Seq<char>, i: int) -> Seq<char> {
    if class[i] == '-' {
        if i + 1 < class.len() && is_digit(class[i + 1]) {
            Seq::<char>::empty()
        } else {
            seq!['_']
        }
    } else {
        seq![class[i]]
    }
}

/// The readable text of the first `n` characters of a class.
pub open spec fn readable_text_upto(class: Seq<char>, n: int) -> Seq<char>
    decreases n,
{
    if n <= 0 {
        Seq::<char>::empty()
    } else {
        readable_text_upto(class, n - 1) + readable_piece(class, n - 1)
    }
}

/// The readable text of a class: `p-4` is `p4`, `text-red-500` is `text_red500`.
pub open spec fn readable_text(class: Seq<char>) -> Seq<char> {
    readable_text_upto(class, class.len() as int)
}

fn readable_text_of(class: &str) -> (r: String)
    ensures
        r@ == readable_text(class@),
{
    let v = chars_of(class);
    let mut out = String::new();
    let mut i: usize = 0;
    while i < v.len()
        invariant
            i <= v@.len(),
            v@ == class@,
            out@ == readable_text_upto(class@, i as int),
        decreases v@.len() - i,
    {
        if v[i] == '-' {
            if i + 1 < v.len() && char_is_digit(v[i + 1]) {
                assert(readable_piece(class@, i as int) =~= Seq::<char>::empty());
            } else {
                out.push('_');
            }
        } else {
            out.push(v[i]);
        }
        i = i + 1;
    }
    out
}

/// The prefix of `s` of exactly `n` bytes (when `n` falls between characters).
pub open spec fn byte_prefix(s: Seq<char>, n: nat) -> Seq<char> {
    choose|p: Seq<char>| is_prefix(p, s) && byte_len(p) == n
}

/// The readable prefix of a class: its readable text, cut to its first 8
/// bytes; `p-4` is `p4` and `text-red-500` is `text_red`.
pub open spec fn readable_prefix(class: Seq<char>) -> Seq<char> {
    let c = readable_text(class);
    if byte_len(c) > 8 {
        byte_prefix(c, 8)
    } else {
        c
    }
}

/// Whether the readable prefix of `class` can be cut (its 8th byte ends a character).
pub open spec fn readable_prefix_ok(class: Seq<char>) -> bool {
    byte_len(readable_text(class)) > 8 ==> is_byte_boundary(readable_text(class), 8)
}

/// The joined readable prefixes of a class list.
pub open spec fn readable_joined(classes: Seq<Seq<char>>) -> Seq<char> {
    join(classes.map_values(|c: Seq<char>| readable_prefix(c)), "_"@)
}

/// The readable name: `empty` for no classes; else the readable prefixes joined
/// by `_`; when that exceeds 32 bytes, its first 24 bytes, `_` and 6 hex digits of its hash.
pub open spec fn readable_name(classes: Seq<Seq<char>>) -> Seq<char> {
    if classes.len() == 0 {
        "empty"@
    } else {
        let j = readable_joined(classes);
        if byte_len(j) > 32 {
            byte_prefix(j, 24) + "_"@ + blake3_hex(j).subrange(0, 6)
        } else {
            j
        }
    }
}

/// Whether readable naming can cut every piece it cuts between characters.
pub open spec fn readable_ok(classes: Seq<Seq<char>>) -> bool {
    &&& forall|i: int| 0 <= i < classes.len() ==> readable_prefix_ok(#[trigger] classes[i])
    &&& classes.len() > 0 && byte_len(readable_joined(classes)) > 32 ==> is_byte_boundary(
        readable_joined(classes),
        24,
    )
}

// ── Camel-case naming ───────────────────────────────────────────────────────

/// The camel-case form of the first `k` characters of a class, and whether the
/// next character is to be capitalized: `-` and `:` are dropped and capitalize
/// the character after them.
pub open spec fn camel_state(class: Seq<char>, k: int) -> (Seq<char>, bool)
    decreases k,
{
    if k <= 0 {
        (seq![], false)
    } else {
        let (acc, cap) = camel_state(class, k - 1);
        let ch = class[k - 1];
        if ch == '-' || ch == ':' {
            (acc, true)
        } else if cap {
            (acc + uppercase(ch), false)
        } else {
            (acc.push(ch), false)
        }
    }
}

/// The camel-case form of a class.
pub open spec fn camel(class: Seq<char>) -> Seq<char> {
    camel_state(class, class.len() as int).0
}

/// `s` with its first character in uppercase.
pub open spec fn upper_first(s: Seq<char>) -> Seq<char> {
    if s.len() == 0 {
        s
    } else {
        uppercase(s[0]) + s.subrange(1, s.len() as int)
    }
}

/// The camel-case forms of the first `k` classes, each after the first capitalized.
pub open spec fn camel_joined(classes: Seq<Seq<char>>, k: int) -> Seq<char>
    decreases k,
{
    if k <= 0 {
        seq![]
    } else if k == 1 {
        camel(classes[0])
    } else {
        camel_joined(classes, k - 1) + upper_first(camel(classes[k - 1]))
    }
}

/// The camel-case name: `empty` for no classes; else the joined camel-case
/// forms; when that exceeds 32 bytes, its first 24 bytes and 6 hex digits of its hash.
pub open spec fn camel_name(classes: Seq<Seq<char>>) -> Seq<char> {
    if classes.len() == 0 {
        "empty"@
    } else {
        let j = camel_joined(classes, classes.len() as int);
        if byte_len(j) > 32 {
            byte_prefix(j, 24) + blake3_hex(j).subrange(0, 6)
        } else {
            j
        }
    }
}

/// Whether camel-case naming can cut its name between characters.
pub open spec fn camel_ok(classes: Seq<Seq<char>>) -> bool {
    classes.len() > 0 && byte_len(camel_joined(classes, classes.len() as int)) > 32
        ==> is_byte_boundary(camel_joined(classes, classes.len() as int), 24)
}

// ── Strategies ──────────────────────────────────────────────────────────────

/// Whether `mode` can name the class list.
pub open spec fn naming_ok(mode: NamingMode, classes: Seq<Seq<char>>) -> bool {
    match mode {
        NamingMode::Hash => true,
        NamingMode::Readable => readable_ok(classes),
        NamingMode::CamelCase => camel_ok(classes),
        NamingMode::Semantic => false,
    }
}

/// The name that `mode` gives a class list.
pub open spec fn name_for(mode: NamingMode, classes: Seq<Seq<char>>) -> Seq<char> {
    match mode {
        NamingMode::Hash => hash_name(classes),
        NamingMode::Readable => readable_name(classes),
        _ => camel_name(classes),
    }
}

/// A way to name the class that a list of classes becomes.
pub trait NamingStrategy {
    spec fn mode(&self) -> NamingMode;

    fn generate_name(&self, classes: &[String]) -> (r: String)
        requires
            naming_ok(self.mode(), strings_view(classes@)),
        ensures
            r@ == name_for(self.mode(), strings_view(classes@)),
    ;
}

/// Names a class list by the hash of its text.
pub struct HashNaming;

/// Names a class list by its readable prefixes.
pub struct ReadableNaming;

/// Names a class list in camel case, for `styles.name` access.
pub struct CamelCaseNaming;

fn prefix_of_class(class: &str) -> (r: String)
    requires
        readable_prefix_ok(class@),
    ensures
        r@ == readable_prefix(class@),
{
    let cleaned = readable_text_of(class);
    if byte_len_of(cleaned.as_str()) > 8 {
        let r = truncate_bytes(cleaned.as_str(), 8);
        proof {
            assert(is_prefix(r@, cleaned@) && byte_len(r@) == 8);
            lemma_byte_prefix_unique(cleaned@, 8, r@);
        }
        r
    } else {
        cleaned
    }
}

/// The prefix of a given byte length is unique.
proof fn lemma_byte_prefix_unique(s: Seq<char>, n: nat, p: Seq<char>)
    requires
        is_prefix(p, s),
        byte_len(p) == n,
    ensures
        byte_prefix(s, n) == p,
{
    let q = byte_prefix(s, n);
    assert(is_prefix(q, s) && byte_len(q) == n);
    if q.len() < p.len() {
        lemma_prefix_shorter(s, q.len() as int, p.len() as int);
        assert(s.subrange(0, q.len() as int) =~= q);
        assert(s.subrange(0, p.len() as int) =~= p);
    } else if p.len() < q.len() {
        lemma_prefix_shorter(s, p.len() as int, q.len() as int);
        assert(s.subrange(0, q.len() as int) =~= q);
        assert(s.subrange(0, p.len() as int) =~= p);
    } else {
        assert(p =~= q);
    }
}

proof fn lemma_prefix_shorter(s: Seq<char>, a: int, b: int)
    requires
        0 <= a < b <= s.len(),
    ensures
        byte_len(s.subrange(0, a)) < byte_len(s.subrange(0, b)),
    decreases b - a,
{
    assert(s.subrange(0, b).drop_last() =~= s.subrange(0, b - 1));
    if a < b - 1 {
        lemma_prefix_shorter(s, a, b - 1);
    }
}

impl ReadableNaming {
    fn extract_prefix(class: &str) -> (r: String)
        requires
            readable_prefix_ok(class@),
        ensures
            r@ == readable_prefix(class@),
    {
        prefix_of_class(class)
    }
}

impl NamingStrategy for HashNaming {
    open spec fn mode(&self) -> NamingMode {
        NamingMode::Hash
    }

    fn generate_name(&self, classes: &[String]) -> (r: String)
        ensures
            r@.len() == 14,
            r@[0] == 'c' && r@[1] == '_',
            forall|i: int| 2 <= i < 14 ==> is_lower_hex(#[trigger] r@[i]),
    {
        let input = join_strings(classes, " ");
        let h = hash_prefix(input.as_str(), 12);
        let r = cat2("c_", h.as_str());
        proof {
            reveal_strlit("c_");
            assert forall|i: int| 2 <= i < 14 implies is_lower_hex(#[trigger] r@[i]) by {
                assert(r@[i] == h@[i - 2]);
            }
        }
        r
    }
}

impl NamingStrategy for ReadableNaming {
    open spec fn mode(&self) -> NamingMode {
        NamingMode::Readable
    }

    fn generate_name(&self, classes: &[String]) -> (r: String)
        ensures
            byte_len(r@) <= 32,
    {
        let ghost cs = strings_view(classes@);
        if classes.len() == 0 {
            proof {
                reveal_strlit("empty");
            }
            let e = owned("empty");
            assert(byte_len(e@) == 5) by {
                reveal_with_fuel(byte_len, 6);
            }
            return e;
        }
        let mut prefixes: Vec<String> = Vec::new();
        let mut i: usize = 0;
        while i < classes.len()
            invariant
                i <= classes@.len(),
                cs == strings_view(classes@),
                readable_ok(cs),
                prefixes@.len() == i,
                forall|j: int| 0 <= j < i ==> #[trigger] prefixes@[j]@ == readable_prefix(cs[j]),
            decreases classes@.len() - i,
        {
            assert(readable_prefix_ok(cs[i as int]));
            prefixes.push(Self::extract_prefix(classes[i].as_str()));
            i = i + 1;
        }
        assert(strings_view(prefixes@) =~= cs.map_values(|c: Seq<char>| readable_prefix(c)));
        let combined = join_strings(prefixes.as_slice(), "_");
        if byte_len_of(combined.as_str()) > 32 {
            let truncated = truncate_bytes(combined.as_str(), 24);
            proof {
                lemma_byte_prefix_unique(combined@, 24, truncated@);
            }
            let h = hash_prefix(combined.as_str(), 6);
            let r = cat3(truncated.as_str(), "_", h.as_str());
            proof {
                reveal_strlit("_");
                assert(byte_len("_"@) == 1) by {
                    reveal_with_fuel(byte_len, 2);
                }
                lemma_byte_len_hex(h@);
                lemma_byte_len_concat(truncated@, "_"@);
                lemma_byte_len_concat(truncated@ + "_"@, h@);
                assert(r@ =~= truncated@ + "_"@ + h@);
            }
            r
        } else {
            combined
        }
    }
}

impl CamelCaseNaming {
    /// The camel-case forms of the classes, joined with the first letter of
    /// each after the first made uppercase.
    fn joined(classes: &[String]) -> (r: String)
        ensures
            r@ == camel_joined(strings_view(classes@), classes@.len() as int),
    {
        let ghost cs = strings_view(classes@);
        let mut combined = String::new();
        let mut i: usize = 0;
        while i < classes.len()
            invariant
                i <= classes@.len(),
                cs == strings_view(classes@),
                combined@ == camel_joined(cs, i as int),
            decreases classes@.len() - i,
        {
            let c = Self::class_to_camel(classes[i].as_str());
            if i == 0 {
                combined.append(c.as_str());
                assert(combined@ =~= camel(cs[0]));
            } else {
                let v = chars_of(c.as_str());
                if v.len() > 0 {
                    let u = uppercase_of(v[0]);
                    combined.append(u.as_str());
                    let rest = string_of_chars(&v, 1, v.len());
                    combined.append(rest.as_str());
                    assert(combined@ =~= camel_joined(cs, i as int) + upper_first(camel(cs[i as int])));
                } else {
                    assert(combined@ =~= camel_joined(cs, i as int) + upper_first(camel(cs[i as int])));
                }
            }
            i = i + 1;
        }
        combined
    }

    /// The camel-case form of one class.
    fn class_to_camel(class: &str) -> (r: String)
        ensures
            r@ == camel(class@),
    {
        let v = chars_of(class);
        let mut out = String::new();
        let mut cap = false;
        let mut i: usize = 0;
        while i < v.len()
            invariant
                i <= v@.len(),
                v@ == class@,
                (out@, cap) == camel_state(v@, i as int),
            decreases v@.len() - i,
        {
            let ch = v[i];
            if ch == '-' || ch == ':' {
                cap = true;
            } else if cap {
                let u = uppercase_of(ch);
                out.append(u.as_str());
                cap = false;
            } else {
                out.push(ch);
            }
            i = i + 1;
        }
        out
    }
}

impl NamingStrategy for CamelCaseNaming {
    open spec fn mode(&self) -> NamingMode {
        NamingMode::CamelCase
    }

    fn generate_name(&self, classes: &[String]) -> (r: String)
        ensures
            byte_len(r@) <= 32,
    {
        let ghost cs = strings_view(classes@);
        if classes.len() == 0 {
            proof {
                reveal_strlit("empty");
            }
            let e = owned("empty");
            assert(byte_len(e@) == 5) by {
                reveal_with_fuel(byte_len, 6);
            }
            return e;
        }
        let combined = Self::joined(classes);
        if byte_len_of(combined.as_str()) > 32 {
            let truncated = truncate_bytes(combined.as_str(), 24);
            proof {
                lemma_byte_prefix_unique(combined@, 24, truncated@);
            }
            let h = hash_prefix(combined.as_str(), 6);
            let r = cat2(truncated.as_str(), h.as_str());
            proof {
                lemma_byte_len_hex(h@);
                lemma_byte_len_concat(truncated@, h@);
            }
            r
        } else {
            combined
        }
    }
}

/// Whether `mode` can name the class list, that is, whether each piece that
/// its naming cuts is cut between two characters.
pub fn can_name(mode: NamingMode, classes: &[String]) -> (r: bool)
    ensures
        r == naming_ok(mode, strings_view(classes@)),
{
    let ghost cs = strings_view(classes@);
    match mode {
        NamingMode::Hash => true,
        NamingMode::Semantic => false,
        NamingMode::Readable => {
            let mut prefixes: Vec<String> = Vec::new();
            let mut i: usize = 0;
            while i < classes.len()
                invariant
                    i <= classes@.len(),
                    mode == NamingMode::Readable,
                    cs == strings_view(classes@),
                    prefixes@.len() == i,
                    forall|j: int| 0 <= j < i ==> readable_prefix_ok(#[trigger] cs[j]),
                    forall|j: int| 0 <= j < i ==> #[trigger] prefixes@[j]@ == readable_prefix(cs[j]),
                decreases classes@.len() - i,
            {
                let cleaned = readable_text_of(classes[i].as_str());
                if byte_len_of(cleaned.as_str()) > 8 && !is_byte_boundary_of(cleaned.as_str(), 8) {
                    assert(cleaned@ == readable_text(cs[i as int]));
                    assert(!readable_prefix_ok(cs[i as int]));
                    return false;
                }
                prefixes.push(prefix_of_class(classes[i].as_str()));
                i = i + 1;
            }
            if classes.len() == 0 {
                return true;
            }
            assert(strings_view(prefixes@) =~= cs.map_values(|c: Seq<char>| readable_prefix(c)));
            let combined = join_strings(prefixes.as_slice(), "_");
            byte_len_of(combined.as_str()) <= 32 || is_byte_boundary_of(combined.as_str(), 24)
        },
        NamingMode::CamelCase => {
            if classes.len() == 0 {
                return true;
            }
            let combined = CamelCaseNaming::joined(classes);
            byte_len_of(combined.as_str()) <= 32 || is_byte_boundary_of(combined.as_str(), 24)
        },
    }
}

/// The naming strategy that a mode selects.
pub struct SelectedNaming {
    pub mode: NamingMode,
}

impl NamingStrategy for SelectedNaming {
    open spec fn mode(&self) -> NamingMode {
        self.mode
    }

    fn generate_name(&self, classes: &[String]) -> (r: String)
        ensures
            self.mode == NamingMode::Hash ==> r@.len() == 14 && r@[0] == 'c' && r@[1] == '_',
            self.mode != NamingMode::Hash ==> byte_len(r@) <= 32,
    {
        match self.mode {
            NamingMode::Hash => HashNaming.generate_name(classes),
            NamingMode::Readable => ReadableNaming.generate_name(classes),
            _ => CamelCaseNaming.generate_name(classes),
        }
    }
}

/// The strategy of a naming mode; semantic naming is not available.
pub fn create_naming_strategy(mode: NamingMode) -> (r: SelectedNaming)
    requires
        mode != NamingMode::Semantic,
    ensures
        r.mode() == mode,
{
    SelectedNaming { mode }
}

} // verus!
