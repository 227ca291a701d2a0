//! The style model: run-level text styles and their cascading merge.
//!
//! Every field of a [`TextStyle`] is independently optional; an unset field
//! means "inherit". A style with every field unset is the identity of
//! [`TextStyle::merge`]. The two settings maps are kept as vectors of
//! key/value entries with pairwise-distinct keys; their logical content is a
//! `Map`, and merging is right-biased union: entries of the overriding style
//! replace same-keyed entries of the base.

use vstd::prelude::*;

verus! {

/// Slant of a font face.
#[derive(Clone, Copy, Debug, PartialEq, Eq, Structural)]
pub enum FontStyle {
    Normal,
    Oblique,
    Italic,
}

/// A variable-font axis setting: keep the font's default, or set a value
/// (a coordinate in sub-units, see [`crate::fix`]).
#[derive(Clone, Copy, Debug, PartialEq, Eq, Structural)]
pub enum FontVariationValue {
    Default,
    Value(i64),
}

/// A run-level text style; every field unset means "inherit".
#[derive(Debug)]
pub struct TextStyle {
    pub font_family: Option<String>,
    pub font_weight: Option<i32>,
    pub font_width: Option<i32>,
    pub font_style: Option<FontStyle>,
    /// Font size in sub-units.
    pub font_size: Option<i64>,
    pub color: Option<String>,
    pub lang: Option<String>,
    pub font_feature_settings: Vec<(String, u32)>,
    pub font_variation_settings: Vec<(String, FontVariationValue)>,
}

/// The logical content of a style: option fields by value, settings as maps.
#[verifier::ext_equal]
pub ghost struct StyleView {
    pub font_family: Option<Seq<char>>,
    pub font_weight: Option<i32>,
    pub font_width: Option<i32>,
    pub font_style: Option<FontStyle>,
    pub font_size: Option<i64>,
    pub color: Option<Seq<char>>,
    pub lang: Option<Seq<char>>,
    pub font_feature_settings: Map<Seq<char>, u32>,
    pub font_variation_settings: Map<Seq<char>, FontVariationValue>,
}

/// The view of an optional string.
pub open spec fn opt_text(o: Option<String>) -> Option<Seq<char>> {
    match o {
        Option::Some(s) => Option::Some(s@),
        Option::None => Option::None,
    }
}

/// The map content of a key/value entry list: later entries win.
pub open spec fn entry_map<V>(s: Seq<(String, V)>) -> Map<Seq<char>, V>
    decreases s.len(),
{
    if s.len() == 0 {
        Map::empty()
    } else {
        entry_map(s.drop_last()).insert(s.last().0@, s.last().1)
    }
}

/// Whether the keys of an entry list are pairwise distinct.
pub open spec fn unique_keys<V>(s: Seq<(String, V)>) -> bool {
    forall|i: int, j: int| 0 <= i < j < s.len() ==> s[i].0@ != s[j].0@
}

/// `override` wins on every scalar field it sets; the settings maps are
/// unioned with `override` entries replacing same-keyed `base` entries.
pub open spec fn spec_merge(base: StyleView, over: StyleView) -> StyleView {
    StyleView {
        font_family: if over.font_family is Some {
            over.font_family
        } else {
            base.font_family
        },
        font_weight: if over.font_weight is Some {
            over.font_weight
        } else {
            base.font_weight
        },
        font_width: if over.font_width is Some {
            over.font_width
        } else {
            base.font_width
        },
        font_style: if over.font_style is Some {
            over.font_style
        } else {
            base.font_style
        },
        font_size: if over.font_size is Some {
            over.font_size
        } else {
            base.font_size
        },
        color: if over.color is Some {
            over.color
        } else {
            base.color
        },
        lang: if over.lang is Some {
            over.lang
        } else {
            base.lang
        },
        font_feature_settings: base.font_feature_settings.union_prefer_right(
            over.font_feature_settings,
        ),
        font_variation_settings: base.font_variation_settings.union_prefer_right(
            over.font_variation_settings,
        ),
    }
}

/// The style with every field unset.
pub open spec fn default_style_view() -> StyleView {
    StyleView {
        font_family: Option::None,
        font_weight: Option::None,
        font_width: Option::None,
        font_style: Option::None,
        font_size: Option::None,
        color: Option::None,
        lang: Option::None,
        font_feature_settings: Map::empty(),
        font_variation_settings: Map::empty(),
    }
}

impl TextStyle {
    /// The logical content of this style.
    pub open spec fn view(&self) -> StyleView {
        StyleView {
            font_family: opt_text(self.font_family),
            font_weight: self.font_weight,
            font_width: self.font_width,
            font_style: self.font_style,
            font_size: self.font_size,
            color: opt_text(self.color),
            lang: opt_text(self.lang),
            font_feature_settings: entry_map(self.font_feature_settings@),
            font_variation_settings: entry_map(self.font_variation_settings@),
        }
    }

    /// Well-formed: the settings lists never repeat a key.
    pub open spec fn wf(&self) -> bool {
        unique_keys(self.font_feature_settings@) && unique_keys(self.font_variation_settings@)
    }

    /// The style with every field unset: the identity of `merge`.
    pub fn new() -> (s: TextStyle)
        ensures
            s.wf(),
            s@ == default_style_view(),
            s.font_feature_settings@.len() == 0,
            s.font_variation_settings@.len() == 0,
    {
        let s = TextStyle {
            font_family: Option::None,
            font_weight: Option::None,
            font_width: Option::None,
            font_style: Option::None,
            font_size: Option::None,
            color: Option::None,
            lang: Option::None,
            font_feature_settings: Vec::new(),
            font_variation_settings: Vec::new(),
        };
        proof {
            assert(s@ =~= default_style_view());
        }
        s
    }

    /// Overlays `other` on `self`: set fields of `other` win, settings maps
    /// are unioned right-biased.
    pub fn merge(&mut self, other: &TextStyle)
        requires
            old(self).wf(),
            other.wf(),
        ensures
            final(self).wf(),
            final(self)@ == spec_merge(old(self)@, other@),
    {
        match &other.font_family {
            Option::Some(v) => self.font_family = Option::Some(v.clone()),
            Option::None => {},
        }
        match &other.font_weight {
            Option::Some(v) => self.font_weight = Option::Some(*v),
            Option::None => {},
        }
        match &other.font_width {
            Option::Some(v) => self.font_width = Option::Some(*v),
            Option::None => {},
        }
        match &other.font_style {
            Option::Some(v) => self.font_style = Option::Some(*v),
            Option::None => {},
        }
        match &other.font_size {
            Option::Some(v) => self.font_size = Option::Some(*v),
            Option::None => {},
        }
        match &other.color {
            Option::Some(v) => self.color = Option::Some(v.clone()),
            Option::None => {},
        }
        match &other.lang {
            Option::Some(v) => self.lang = Option::Some(v.clone()),
            Option::None => {},
        }
        extend_entries(&mut self.font_feature_settings, &other.font_feature_settings);
        extend_entries(&mut self.font_variation_settings, &other.font_variation_settings);
        proof {
            assert(self@ =~= spec_merge(old(self)@, other@));
        }
    }
}

/// Every settings map is unchanged by overlaying no entries, and overlaying
/// onto no entries keeps exactly the overlay.
proof fn lemma_union_empty<V>(m: Map<Seq<char>, V>)
    ensures
        m.union_prefer_right(Map::empty()) == m,
        Map::empty().union_prefer_right(m) == m,
{
    assert(m.union_prefer_right(Map::<Seq<char>, V>::empty()) =~= m);
    assert(Map::<Seq<char>, V>::empty().union_prefer_right(m) =~= m);
}

/// Merging the all-unset style into any style, or any style into the
/// all-unset style, changes nothing.
pub proof fn lemma_merge_identity(v: StyleView)
    ensures
        spec_merge(default_style_view(), v) == v,
        spec_merge(v, default_style_view()) == v,
{
    lemma_union_empty(v.font_feature_settings);
    lemma_union_empty(v.font_variation_settings);
    assert(spec_merge(default_style_view(), v) =~= v);
    assert(spec_merge(v, default_style_view()) =~= v);
}

proof fn lemma_entry_map_push<V>(s: Seq<(String, V)>, k: String, v: V)
    ensures
        entry_map(s.push((k, v))) == entry_map(s).insert(k@, v),
{
    assert(s.push((k, v)).drop_last() =~= s);
}

proof fn lemma_entry_map_update<V>(s: Seq<(String, V)>, i: int, k: String, v: V)
    requires
        unique_keys(s),
        0 <= i < s.len(),
        s[i].0@ == k@,
    ensures
        entry_map(s.update(i, (k, v))) == entry_map(s).insert(k@, v),
    decreases s.len(),
{
    let t = s.update(i, (k, v));
    if i == s.len() - 1 {
        assert(t.drop_last() =~= s.drop_last());
        assert(entry_map(t) == entry_map(s.drop_last()).insert(k@, v));
        assert(entry_map(s).insert(k@, v) == entry_map(s.drop_last()).insert(
            s.last().0@,
            s.last().1,
        ).insert(k@, v));
        assert(entry_map(s.drop_last()).insert(k@, v) =~= entry_map(s.drop_last()).insert(
            s.last().0@,
            s.last().1,
        ).insert(k@, v));
    } else {
        assert(t.drop_last() =~= s.drop_last().update(i, (k, v)));
        lemma_entry_map_update(s.drop_last(), i, k, v);
        assert(t.last() == s.last());
        assert(entry_map(t) == entry_map(s.drop_last()).insert(k@, v).insert(
            s.last().0@,
            s.last().1,
        ));
        assert(s.last().0@ != k@);
        assert(entry_map(s.drop_last()).insert(k@, v).insert(s.last().0@, s.last().1)
            =~= entry_map(s.drop_last()).insert(s.last().0@, s.last().1).insert(k@, v));
    }
}

/// Whether some entry of `s` has key `k`.
pub open spec fn has_key<V>(s: Seq<(String, V)>, k: Seq<char>) -> bool {
    exists|i: int| 0 <= i < s.len() && s[i].0@ == k
}

proof fn lemma_entry_map_contains<V>(s: Seq<(String, V)>, k: Seq<char>)
    ensures
        entry_map(s).contains_key(k) <==> has_key(s, k),
    decreases s.len(),
{
    if s.len() > 0 {
        lemma_entry_map_contains(s.drop_last(), k);
        if has_key(s.drop_last(), k) {
            let i = choose|i: int| 0 <= i < s.drop_last().len() && s.drop_last()[i].0@ == k;
            assert(s[i].0@ == k);
        } else if s.last().0@ == k {
            assert(s[s.len() - 1].0@ == k);
        } else if has_key(s, k) {
            let i = choose|i: int| 0 <= i < s.len() && s[i].0@ == k;
            assert(i < s.len() - 1 ==> s.drop_last()[i].0@ == k);
        }
    }
}

/// Finds the position of the entry with key `k`, if one exists.
fn find_key<V>(s: &Vec<(String, V)>, k: &String) -> (r: Option<usize>)
    ensures
        match r {
            Option::Some(i) => i < s@.len() && s@[i as int].0@ == k@,
            Option::None => !has_key(s@, k@),
        },
{
    let mut i: usize = 0;
    while i < s.len()
        invariant
            i <= s@.len(),
            forall|j: int| 0 <= j < i ==> s@[j].0@ != k@,
        decreases s@.len() - i,
    {
        if s[i].0.eq(k) {
            return Option::Some(i);
        }
        i = i + 1;
    }
    Option::None
}

/// Overlays the entries of `other` onto `entries` in order: a same-keyed
/// entry is replaced in place, a new key is appended.
fn extend_entries<V: Copy>(entries: &mut Vec<(String, V)>, other: &Vec<(String, V)>)
    requires
        unique_keys(old(entries)@),
        unique_keys(other@),
    ensures
        unique_keys(final(entries)@),
        entry_map(final(entries)@) == entry_map(old(entries)@).union_prefer_right(
            entry_map(other@),
        ),
{
    let ghost base = entries@;
    let mut idx: usize = 0;
    while idx < other.len()
        invariant
            idx <= other@.len(),
            unique_keys(entries@),
            unique_keys(other@),
            entry_map(entries@) == entry_map(base).union_prefer_right(
                entry_map(other@.take(idx as int)),
            ),
        decreases other@.len() - idx,
    {
        let ghost pre = entries@;
        let k = other[idx].0.clone();
        let v = other[idx].1;
        match find_key(entries, &k) {
            Option::Some(i) => {
                proof {
                    lemma_entry_map_update(pre, i as int, k, v);
                }
                entries.set(i, (k, v));
            },
            Option::None => {
                proof {
                    lemma_entry_map_push(pre, k, v);
                    lemma_entry_map_contains(pre, k@);
                }
                let ghost knew = k@;
                entries.push((k, v));
                proof {
                    assert forall|a: int, b: int|
                        0 <= a < b < entries@.len() implies entries@[a].0@ != entries@[b].0@ by {
                        if b == entries@.len() - 1 {
                            assert(!has_key(pre, knew));
                            assert(pre[a].0@ != knew);
                        }
                    }
                }
            },
        }
        proof {
            assert(other@.take(idx + 1).drop_last() =~= other@.take(idx as int));
            assert(other@.take(idx + 1).last() == other@[idx as int]);
            assert(entry_map(other@.take(idx + 1)) == entry_map(other@.take(idx as int)).insert(
                other@[idx as int].0@,
                other@[idx as int].1,
            ));
            assert(entry_map(entries@) =~= entry_map(base).union_prefer_right(
                entry_map(other@.take(idx + 1)),
            ));
        }
        idx = idx + 1;
    }
    proof {
        assert(other@.take(other@.len() as int) =~= other@);
    }
}

/// Folds one character into a four-character tag code (the engine stores
/// tags little-endian: each character shifts in at the high byte).
pub open spec fn tag_fold(s: Seq<char>) -> u32
    decreases s.len(),
{
    if s.len() == 0 {
        0u32
    } else {
        (tag_fold(s.drop_last()) >> 8) | (((s.last() as u32) & 0xff) << 24)
    }
}

/// Pads a tag code with `k` trailing spaces (0x20 shifted in at the high
/// byte).
pub open spec fn tag_pad(r: u32, k: nat) -> u32
    decreases k,
{
    if k == 0 {
        r
    } else {
        tag_pad((r >> 8) | 0x2000_0000, (k - 1) as nat)
    }
}

/// The tag code of `s`: its characters' low bytes, space-padded to four.
pub open spec fn tag_of(s: Seq<char>) -> u32 {
    if s.len() < 4 {
        tag_pad(tag_fold(s), (4 - s.len()) as nat)
    } else {
        tag_fold(s)
    }
}

/// Converts a settings key to the engine's four-byte tag code.
pub fn string_to_tag(tag_str: &str) -> (result: u32)
    ensures
        result == tag_of(tag_str@),
{
    let n = tag_str.unicode_len();
    let mut result: u32 = 0;
    let mut i: usize = 0;
    while i < n
        invariant
            n == tag_str@.len(),
            i <= n,
            result == tag_fold(tag_str@.take(i as int)),
        decreases n - i,
    {
        let ch = tag_str.get_char(i);
        let code = ch as u32;
        result = (result >> 8) | ((code & 0xff) << 24);
        proof {
            assert(tag_str@.take(i + 1).drop_last() =~= tag_str@.take(i as int));
            assert(tag_str@.take(i + 1).last() == tag_str@[i as int]);
        }
        i = i + 1;
    }
    proof {
        assert(tag_str@.take(n as int) =~= tag_str@);
    }
    let mut len: usize = if n > 4 {
        4
    } else {
        n
    };
    let ghost padded = tag_of(tag_str@);
    while len < 4
        invariant
            len <= 4,
            n < 4 ==> len >= n,
            n >= 4 ==> len == 4,
            padded == tag_of(tag_str@),
            n < 4 ==> tag_pad(result, (4 - len) as nat) == padded,
            len == 4 ==> result == padded,
        decreases 4 - len,
    {
        result = (result >> 8) | 0x20000000;
        len = len + 1;
    }
    result
}

} // verus!
