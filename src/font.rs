//! Keys and descriptions of fonts and glyphs, and the grouping of font
//! variants into families.
use vstd::prelude::*;

use std::collections::HashMap;
use vstd::std_specs::hash::obeys_key_model;

verus! {

/// A font named by family and style.
#[derive(Debug, Clone, PartialEq, Eq, Hash)]
pub struct FontDesc {
    name: String,
    style: String,
}

impl FontDesc {
    /// The font of family `name` in style `style`.
    pub fn new(name: String, style: String) -> (r: FontDesc)
        ensures
            r.name_spec() == name,
            r.style_spec() == style,
    {
        FontDesc { name, style }
    }

    /// The family name.
    pub closed spec fn name_spec(&self) -> String {
        self.name
    }

    /// The style name.
    pub closed spec fn style_spec(&self) -> String {
        self.style
    }

    /// The family name.
    pub fn name(&self) -> (r: &String)
        ensures
            *r == self.name_spec(),
    {
        &self.name
    }

    /// The style name.
    pub fn style(&self) -> (r: &String)
        ensures
            *r == self.style_spec(),
    {
        &self.style
    }
}

/// The source of font keys: each key it hands out carries a token that no
/// earlier key from it carried.
#[derive(Debug)]
pub struct KeyCounter {
    next: u32,
}

impl KeyCounter {
    /// A counter whose first token is zero.
    pub fn new() -> (r: KeyCounter)
        ensures
            r.next_token() == 0,
    {
        KeyCounter { next: 0 }
    }

    /// The token the next key will carry.
    pub closed spec fn next_token(&self) -> nat {
        self.next as nat
    }

    /// Whether another key can be handed out.
    pub fn has_next(&self) -> (r: bool)
        ensures
            r == (self.next_token() < u32::MAX),
    {
        self.next < u32::MAX
    }
}

/// An identifier of a loaded font.
#[derive(Debug, Clone, Copy, Hash, PartialEq, Eq, Structural)]
pub struct FontKey {
    token: u32,
}

impl FontKey {
    /// The token of this key.
    pub closed spec fn token_spec(&self) -> nat {
        self.token as nat
    }

    /// A key whose token is the counter's next one; the counter moves on, so
    /// that no two keys from one counter are equal.
    pub fn next(counter: &mut KeyCounter) -> (r: FontKey)
        requires
            old(counter).next_token() < u32::MAX,
        ensures
            r.token_spec() == old(counter).next_token(),
            final(counter).next_token() == old(counter).next_token() + 1,
    {
        let token = counter.next;
        counter.next = counter.next + 1;
        FontKey { token }
    }

    /// The token of this key.
    pub fn token(&self) -> (r: u32)
        ensures
            r as nat == self.token_spec(),
    {
        self.token
    }
}

/// A font size in half points.
#[derive(Debug, Copy, Clone, Hash, PartialEq, Eq, Structural)]
pub struct Size(i32);

impl Size {
    /// The size of `half_points` half points.
    pub fn from_half_points(half_points: i32) -> (r: Size)
        ensures
            r.half_points_spec() == half_points,
    {
        Size(half_points)
    }

    /// The size in half points.
    pub closed spec fn half_points_spec(&self) -> i32 {
        self.0
    }

    /// The size in half points.
    pub fn half_points(&self) -> (r: i32)
        ensures
            r == self.half_points_spec(),
    {
        self.0
    }
}

/// A glyph: a character of a font at a size.
#[derive(Debug, Clone, Copy, Hash, PartialEq, Eq, Structural)]
pub struct GlyphKey {
    pub c: char,
    pub font_key: FontKey,
    pub size: Size,
}

/// The bitmap of a rasterized glyph and where it sits.
#[derive(Debug, Clone)]
pub struct RasterizedGlyph {
    pub c: char,
    pub width: i32,
    pub height: i32,
    pub top: i32,
    pub left: i32,
    pub buf: Vec<u8>,
}

/// One style of a font family: the file that holds it and its index there.
#[derive(Debug)]
pub struct Variant {
    style: String,
    file: String,
    index: isize,
}

impl Variant {
    /// The variant of style `style`, face `index` of the file `file`.
    pub fn new(style: String, file: String, index: isize) -> (r: Variant)
        ensures
            r.style_spec() == style,
            r.path_spec() == file,
            r.index_spec() == index,
    {
        Variant { style, file, index }
    }

    /// The style name.
    pub closed spec fn style_spec(&self) -> String {
        self.style
    }

    /// The path of the font file.
    pub closed spec fn path_spec(&self) -> String {
        self.file
    }

    /// The index of the face in its file.
    pub closed spec fn index_spec(&self) -> isize {
        self.index
    }

    /// The style name.
    pub fn style(&self) -> (r: &String)
        ensures
            *r == self.style_spec(),
    {
        &self.style
    }

    /// The path of the font file.
    pub fn path(&self) -> (r: &String)
        ensures
            *r == self.path_spec(),
    {
        &self.file
    }

    /// The index of the face in its file.
    pub fn index(&self) -> (r: isize)
        ensures
            r == self.index_spec(),
    {
        self.index
    }
}

/// Each style of `members` mapped to the last variant of that style.
pub open spec fn variants_map(members: Seq<Variant>) -> Map<String, Variant>
    decreases members.len(),
{
    if members.len() == 0 {
        Map::empty()
    } else {
        let last = members.last();
        variants_map(members.drop_last()).insert(last.style_spec(), last)
    }
}

/// Each name of `families` mapped to the last family of that name.
pub open spec fn families_map(families: Seq<Family>) -> Map<String, Family>
    decreases families.len(),
{
    if families.len() == 0 {
        Map::empty()
    } else {
        let last = families.last();
        families_map(families.drop_last()).insert(last.name_spec(), last)
    }
}

/// A font family and its variants, by style.
#[derive(Debug)]
pub struct Family {
    name: String,
    variants: HashMap<String, Variant>,
}

impl Family {
    /// The family `name` with the variants `members`; of two variants of one
    /// style the later one is kept.
    pub fn new(name: String, members: Vec<Variant>) -> (r: Family)
        ensures
            r.name_spec() == name,
            obeys_key_model::<String>() ==> r.variants_spec() == variants_map(members@),
    {
        let ghost all = members@;
        let mut members = members;
        let mut variants: HashMap<String, Variant> = HashMap::new();
        let n = members.len();
        let mut i: usize = 0;
        while i < n
            invariant
                n == all.len(),
                i <= n,
                i + members@.len() == all.len(),
                members@ == all.subrange(i as int, all.len() as int),
                obeys_key_model::<String>() ==> variants@ == variants_map(all.subrange(0, i as int)),
            decreases members@.len(),
        {
            let v = members.remove(0);
            let key = v.style.clone();
            variants.insert(key, v);
            proof {
                assert(all.subrange(0, i + 1).drop_last() =~= all.subrange(0, i as int));
                assert(all.subrange(0, i + 1).last() == all[i as int]);
            }
            i += 1;
            assert(members@ =~= all.subrange(i as int, all.len() as int));
        }
        assert(all.subrange(0, i as int) =~= all);
        Family { name, variants }
    }

    /// The family name.
    pub closed spec fn name_spec(&self) -> String {
        self.name
    }

    /// The variants by style.
    pub closed spec fn variants_spec(&self) -> Map<String, Variant> {
        self.variants@
    }

    /// The family name.
    pub fn name(&self) -> (r: &String)
        ensures
            *r == self.name_spec(),
    {
        &self.name
    }

    /// The variants, by style.
    pub fn variants(&self) -> (r: &HashMap<String, Variant>)
        ensures
            r@ == self.variants_spec(),
    {
        &self.variants
    }
}

/// The families of `families` by name; of two families of one name the
/// later one is kept.
pub fn get_font_families(families: Vec<Family>) -> (r: HashMap<String, Family>)
    ensures
        obeys_key_model::<String>() ==> r@ == families_map(families@),
{
    let ghost all = families@;
    let mut families = families;
    let mut map: HashMap<String, Family> = HashMap::new();
    let n = families.len();
    let mut i: usize = 0;
    while i < n
        invariant
            n == all.len(),
            i <= n,
            i + families@.len() == all.len(),
            families@ == all.subrange(i as int, all.len() as int),
            obeys_key_model::<String>() ==> map@ == families_map(all.subrange(0, i as int)),
        decreases families@.len(),
    {
        let f = families.remove(0);
        let key = f.name.clone();
        map.insert(key, f);
        proof {
            assert(all.subrange(0, i + 1).drop_last() =~= all.subrange(0, i as int));
            assert(all.subrange(0, i + 1).last() == all[i as int]);
        }
        i += 1;
        assert(families@ =~= all.subrange(i as int, all.len() as int));
    }
    assert(all.subrange(0, i as int) =~= all);
    map
}

/// `a` comes before `b` in lexicographic order of code points, which is
/// the order of `String`.
pub open spec fn lex_lt(a: Seq<char>, b: Seq<char>) -> bool
    decreases a.len(),
{
    if a.len() == 0 {
        b.len() > 0
    } else if b.len() == 0 {
        false
    } else if a[0] != b[0] {
        a[0] < b[0]
    } else {
        lex_lt(a.drop_first(), b.drop_first())
    }
}

proof fn lemma_lex_total(a: Seq<char>, b: Seq<char>)
    requires
        a != b,
    ensures
        lex_lt(a, b) || lex_lt(b, a),
    decreases a.len(),
{
    if a.len() > 0 && b.len() > 0 && a[0] == b[0] {
        if a.drop_first() == b.drop_first() {
            assert(a =~= seq![a[0]] + a.drop_first());
            assert(b =~= seq![b[0]] + b.drop_first());
        }
        lemma_lex_total(a.drop_first(), b.drop_first());
    } else if a.len() == 0 && b.len() == 0 {
        assert(a =~= b);
    }
}

proof fn lemma_lex_trans(a: Seq<char>, b: Seq<char>, c: Seq<char>)
    requires
        lex_lt(a, b),
        lex_lt(b, c),
    ensures
        lex_lt(a, c),
    decreases a.len(),
{
    if a.len() > 0 && b.len() > 0 && c.len() > 0 && a[0] == b[0] && b[0] == c[0] {
        lemma_lex_trans(a.drop_first(), b.drop_first(), c.drop_first());
    }
}

/// What the font database says of one font: its format and the family
/// names it belongs to.
pub struct FontRecord {
    pub format: String,
    pub families: Vec<String>,
}

/// Fonts of these formats are listed.
pub open spec fn is_listed_format(f: Seq<char>) -> bool {
    f == "TrueType"@ || f == "CFF"@
}

/// Some string among `v[0..n)` has the characters `name`.
pub open spec fn names_contain(v: Seq<String>, n: int, name: Seq<char>) -> bool {
    exists|k: int| 0 <= k < n && #[trigger] v[k]@ == name
}

/// Some font of a listed format among `fonts[0..n)` belongs to the family
/// `name`.
pub open spec fn listed_among(fonts: Seq<FontRecord>, n: int, name: Seq<char>) -> bool {
    exists|i: int|
        0 <= i < n && is_listed_format(fonts[i].format@) && #[trigger] names_contain(
            fonts[i].families@,
            fonts[i].families@.len() as int,
            name,
        )
}

proof fn lemma_contain_step(v: Seq<String>, n: int, name: Seq<char>)
    requires
        0 <= n < v.len(),
    ensures
        names_contain(v, n + 1, name) <==> (names_contain(v, n, name) || v[n]@ == name),
{
    if names_contain(v, n + 1, name) {
        let k = choose|k: int| 0 <= k < n + 1 && #[trigger] v[k]@ == name;
        if k < n {
            assert(names_contain(v, n, name));
        }
    }
    if names_contain(v, n, name) {
        let k = choose|k: int| 0 <= k < n && #[trigger] v[k]@ == name;
        assert(0 <= k < n + 1 && v[k]@ == name);
    }
    if v[n]@ == name {
        assert(0 <= n < n + 1 && v[n]@ == name);
    }
}

proof fn lemma_contain_push(v: Seq<String>, x: String, name: Seq<char>)
    ensures
        names_contain(v.push(x), v.len() + 1 as int, name) <==> (names_contain(v, v.len() as int, name) || x@ == name),
{
    let w = v.push(x);
    lemma_contain_step(w, v.len() as int, name);
    if names_contain(w, v.len() as int, name) {
        let k = choose|k: int| 0 <= k < v.len() && #[trigger] w[k]@ == name;
        assert(v[k]@ == name);
    }
    if names_contain(v, v.len() as int, name) {
        let k = choose|k: int| 0 <= k < v.len() && #[trigger] v[k]@ == name;
        assert(w[k]@ == name);
    }
}

proof fn lemma_listed_step(fonts: Seq<FontRecord>, n: int, name: Seq<char>)
    requires
        0 <= n < fonts.len(),
    ensures
        listed_among(fonts, n + 1, name) <==> (listed_among(fonts, n, name) || (is_listed_format(
            fonts[n].format@,
        ) && names_contain(fonts[n].families@, fonts[n].families@.len() as int, name))),
{
    if listed_among(fonts, n + 1, name) {
        let i = choose|i: int|
            0 <= i < n + 1 && is_listed_format(fonts[i].format@) && #[trigger] names_contain(
                fonts[i].families@,
                fonts[i].families@.len() as int,
                name,
            );
        if i < n {
            assert(listed_among(fonts, n, name));
        }
    }
    if listed_among(fonts, n, name) {
        let i = choose|i: int|
            0 <= i < n && is_listed_format(fonts[i].format@) && #[trigger] names_contain(
                fonts[i].families@,
                fonts[i].families@.len() as int,
                name,
            );
        assert(0 <= i < n + 1);
    }
}

/// Relies on `slice::sort`: the result holds the same strings, in
/// ascending order.
#[verifier::external_body]
fn sort_strings(v: &mut Vec<String>)
    ensures
        final(v)@.to_multiset() == old(v)@.to_multiset(),
        forall|i: int, j: int| 0 <= i < j < final(v)@.len() ==> !lex_lt(final(v)@[j]@, final(v)@[i]@),
{
    v.sort();
}

/// Whether `format` names a format whose fonts are listed.
fn listed_format(format: &String) -> (r: bool)
    ensures
        r == is_listed_format(format@),
{
    let true_type = "TrueType".to_string();
    let cff = "CFF".to_string();
    proof {
        reveal_strlit("TrueType");
        reveal_strlit("CFF");
    }
    *format == true_type || *format == cff
}

/// The family names of the fonts of format TrueType or CFF, in ascending
/// order and each once.
pub fn select_families(fonts: &Vec<FontRecord>) -> (r: Vec<String>)
    ensures
        forall|name: Seq<char>|
            #![trigger names_contain(r@, r@.len() as int, name)]
            listed_among(fonts@, fonts@.len() as int, name) <==> names_contain(r@, r@.len() as int, name),
        forall|i: int, j: int| 0 <= i < j < r@.len() ==> lex_lt(r@[i]@, r@[j]@),
{
    let mut names: Vec<String> = Vec::new();
    let mut i: usize = 0;
    while i < fonts.len()
        invariant
            i <= fonts@.len(),
            forall|name: Seq<char>|
                #![trigger names_contain(names@, names@.len() as int, name)]
                listed_among(fonts@, i as int, name) <==> names_contain(names@, names@.len() as int, name),
        decreases fonts@.len() - i,
    {
        let font = &fonts[i];
        let listed = listed_format(&font.format);
        let mut j: usize = 0;
        while listed && j < font.families.len()
            invariant
                i < fonts@.len(),
                *font == fonts@[i as int],
                listed == is_listed_format(font.format@),
                !listed ==> j == 0,
                j <= font.families@.len(),
                forall|name: Seq<char>|
                    #![trigger names_contain(names@, names@.len() as int, name)]
                    (listed_among(fonts@, i as int, name) || names_contain(font.families@, j as int, name))
                        <==> names_contain(names@, names@.len() as int, name),
            decreases font.families@.len() - j,
        {
            let ghost before = names@;
            let x = font.families[j].clone();
            names.push(x);
            proof {
                assert forall|name: Seq<char>|
                    #![trigger names_contain(names@, names@.len() as int, name)]
                    (listed_among(fonts@, i as int, name) || names_contain(font.families@, j + 1, name))
                        <==> names_contain(names@, names@.len() as int, name) by {
                    lemma_contain_push(before, x, name);
                    lemma_contain_step(font.families@, j as int, name);
                    assert(before.len() + 1 == names@.len());
                    assert(names@ == before.push(x));
                    assert(names_contain(before, before.len() as int, name) <==> (listed_among(fonts@, i as int, name)
                        || names_contain(font.families@, j as int, name)));
                }
            }
            j += 1;
        }
        proof {
            assert forall|name: Seq<char>|
                #![trigger names_contain(names@, names@.len() as int, name)]
                listed_among(fonts@, i + 1, name) <==> names_contain(names@, names@.len() as int, name) by {
                lemma_listed_step(fonts@, i as int, name);
                if !listed {
                    assert(j == 0);
                    assert(!names_contain(font.families@, 0, name));
                }
                assert(names_contain(names@, names@.len() as int, name) <==> (listed_among(fonts@, i as int, name)
                    || names_contain(font.families@, j as int, name)));
            }
        }
        i += 1;
    }
    let ghost unsorted = names@;
    sort_strings(&mut names);
    proof {
        unsorted.to_multiset_ensures();
        names@.to_multiset_ensures();
        assert forall|name: Seq<char>|
            #![trigger names_contain(names@, names@.len() as int, name)]
            names_contain(unsorted, unsorted.len() as int, name) <==> names_contain(
                names@,
                names@.len() as int,
                name,
            ) by {
            if names_contain(unsorted, unsorted.len() as int, name) {
                let k = choose|k: int| 0 <= k < unsorted.len() && #[trigger] unsorted[k]@ == name;
                assert(unsorted.to_multiset().count(unsorted[k]) > 0);
                assert(names@.contains(unsorted[k]));
                let m = choose|m: int| 0 <= m < names@.len() && names@[m] == unsorted[k];
                assert(names@[m]@ == name);
            }
            if names_contain(names@, names@.len() as int, name) {
                let k = choose|k: int| 0 <= k < names@.len() && #[trigger] names@[k]@ == name;
                assert(names@.to_multiset().count(names@[k]) > 0);
                assert(unsorted.contains(names@[k]));
                let m = choose|m: int| 0 <= m < unsorted.len() && unsorted[m] == names@[k];
                assert(unsorted[m]@ == name);
            }
        }
    }
    dedup_sorted(&names)
}

/// The strings of the sorted `v`, each once.
fn dedup_sorted(v: &Vec<String>) -> (r: Vec<String>)
    requires
        forall|i: int, j: int| 0 <= i < j < v@.len() ==> !lex_lt(v@[j]@, v@[i]@),
    ensures
        forall|name: Seq<char>|
            #![trigger names_contain(r@, r@.len() as int, name)]
            names_contain(v@, v@.len() as int, name) <==> names_contain(r@, r@.len() as int, name),
        forall|i: int, j: int| 0 <= i < j < r@.len() ==> lex_lt(r@[i]@, r@[j]@),
{
    let mut r: Vec<String> = Vec::new();
    let mut i: usize = 0;
    while i < v.len()
        invariant
            i <= v@.len(),
            forall|i: int, j: int| 0 <= i < j < v@.len() ==> !lex_lt(v@[j]@, v@[i]@),
            forall|name: Seq<char>|
                #![trigger names_contain(r@, r@.len() as int, name)]
                names_contain(v@, i as int, name) <==> names_contain(r@, r@.len() as int, name),
            forall|a: int, b: int| 0 <= a < b < r@.len() ==> lex_lt(r@[a]@, r@[b]@),
            i > 0 ==> r@.len() > 0 && r@.last()@ == v@[i - 1]@,
            i == 0 ==> r@.len() == 0,
        decreases v@.len() - i,
    {
        let ghost before = r@;
        let fresh = r.len() == 0 || r[r.len() - 1] != v[i];
        if fresh {
            let x = v[i].clone();
            r.push(x);
            proof {
                if i > 0 {
                    let last = before.last()@;
                    assert(!lex_lt(v@[i as int]@, v@[i - 1]@));
                    lemma_lex_total(last, v@[i as int]@);
                    assert forall|a: int, b: int| 0 <= a < b < r@.len() implies lex_lt(r@[a]@, r@[b]@) by {
                        if b == r@.len() - 1 && a < b - 1 {
                            assert(r@[a] == before[a]);
                            assert(lex_lt(before[a]@, last));
                            lemma_lex_trans(r@[a]@, last, v@[i as int]@);
                        }
                    }
                }
                assert forall|name: Seq<char>|
                    #![trigger names_contain(r@, r@.len() as int, name)]
                    names_contain(v@, i + 1, name) <==> names_contain(r@, r@.len() as int, name) by {
                    lemma_contain_step(v@, i as int, name);
                    lemma_contain_push(before, x, name);
                    assert(r@ == before.push(x));
                    assert(names_contain(before, before.len() as int, name) <==> names_contain(v@, i as int, name));
                }
            }
        } else {
            proof {
                assert forall|name: Seq<char>|
                    #![trigger names_contain(r@, r@.len() as int, name)]
                    names_contain(v@, i + 1, name) <==> names_contain(r@, r@.len() as int, name) by {
                    lemma_contain_step(v@, i as int, name);
                    lemma_contain_step(r@, r@.len() - 1, name);
                    assert(r@.last()@ == v@[i as int]@);
                    if r@.len() > 1 {
                        assert(r@.last()@ == v@[i - 1]@);
                        lemma_contain_step(v@, i - 1, name);
                    }
                    assert(names_contain(r@, r@.len() as int, name) <==> names_contain(v@, i as int, name));
                }
            }
        }
        i += 1;
    }
    r
}

} // verus!
