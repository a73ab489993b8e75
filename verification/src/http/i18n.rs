//! Translated texts: one text per language, as posts, boards and other
//! labelled things carry them.
use vstd::prelude::*;

verus! {

/// A text in several languages, at most one per language, in the order the
/// languages were first given.
#[derive(Debug)]
pub struct Translations {
    entries: Vec<(String, String)>,
}

pub open spec fn entry_views(v: Seq<(String, String)>) -> Seq<(Seq<char>, Seq<char>)> {
    v.map_values(|p: (String, String)| (p.0@, p.1@))
}

/// No language occurs twice.
pub open spec fn distinct_langs(s: Seq<(Seq<char>, Seq<char>)>) -> bool {
    forall|i: int, j: int| 0 <= i < j < s.len() ==> #[trigger] s[i].0 != #[trigger] s[j].0
}

/// The entries after setting the text of `lang`: a language already present
/// keeps its place and gets the new text, a new one comes last.
pub open spec fn with_entry(s: Seq<(Seq<char>, Seq<char>)>, lang: Seq<char>, text: Seq<char>) -> Seq<
    (Seq<char>, Seq<char>),
> {
    if exists|i: int| 0 <= i < s.len() && (#[trigger] s[i]).0 == lang {
        let i = choose|i: int| 0 <= i < s.len() && (#[trigger] s[i]).0 == lang;
        s.update(i, (lang, text))
    } else {
        s.push((lang, text))
    }
}

impl View for Translations {
    type V = Seq<(Seq<char>, Seq<char>)>;

    closed spec fn view(&self) -> Seq<(Seq<char>, Seq<char>)> {
        entry_views(self.entries@)
    }
}

impl Translations {
    #[verifier::type_invariant]
    spec fn inv(self) -> bool {
        distinct_langs(entry_views(self.entries@))
    }

    /// No text in any language.
    pub fn new() -> (t: Translations)
        ensures
            t@ == Seq::<(Seq<char>, Seq<char>)>::empty(),
    {
        let t = Translations { entries: Vec::new() };
        assert(t@ =~= Seq::<(Seq<char>, Seq<char>)>::empty());
        t
    }

    /// Sets the text of one language.
    pub fn insert(&mut self, lang: String, text: String)
        ensures
            final(self)@ == with_entry(old(self)@, lang@, text@),
    {
        proof {
            use_type_invariant(&*self);
        }
        let ghost before = self@;
        let mut entries: Vec<(String, String)> = Vec::new();
        std::mem::swap(&mut entries, &mut self.entries);
        assert(entry_views(entries@) == before);
        let mut i: usize = 0;
        while i < entries.len()
            invariant
                0 <= i <= entries@.len(),
                entry_views(entries@) == before,
                old(self)@ == before,
                distinct_langs(before),
                forall|k: int| 0 <= k < i ==> (#[trigger] before[k]).0 != lang@,
            decreases entries@.len() - i,
        {
            if entries[i].0 == lang {
                let ghost witness = i as int;
                assert(before[witness].0 == lang@);
                entries.set(i, (lang, text));
                proof {
                    let j = choose|j: int| 0 <= j < before.len() && (#[trigger] before[j]).0 == lang@;
                    assert(j == witness) by {
                        if j != witness {
                            if j < witness {
                                assert(before[j].0 != before[witness].0);
                            } else {
                                assert(before[witness].0 != before[j].0);
                            }
                        }
                    }
                    assert(entry_views(entries@) =~= before.update(witness, (lang@, text@)));
                    assert(distinct_langs(entry_views(entries@)));
                    assert(with_entry(before, lang@, text@) == before.update(witness, (lang@, text@)));
                }
                self.entries = entries;
                assert(self@ == entry_views(entries@));
                return;
            }
            i = i + 1;
        }
        let ghost lv = lang@;
        let ghost tv = text@;
        entries.push((lang, text));
        proof {
            assert(entry_views(entries@) =~= before.push((lv, tv)));
            assert(distinct_langs(entry_views(entries@)));
        }
        self.entries = entries;
    }

    /// The (language, text) pairs.
    pub fn entries(&self) -> (r: &Vec<(String, String)>)
        ensures
            entry_views(r@) == self@,
            distinct_langs(self@),
    {
        proof {
            use_type_invariant(self);
        }
        &self.entries
    }

    /// How many languages have a text.
    pub fn len(&self) -> (n: usize)
        ensures
            n == self@.len(),
    {
        self.entries.len()
    }

    /// Builds translations from pairs known to name each language once.
    pub(crate) fn from_distinct(entries: Vec<(String, String)>) -> (t: Translations)
        requires
            distinct_langs(entry_views(entries@)),
        ensures
            t@ == entry_views(entries@),
    {
        Translations { entries }
    }
}

/// The text of each language that has one.
pub open spec fn translation_map(s: Seq<(Seq<char>, Seq<char>)>) -> Map<Seq<char>, Seq<char>> {
    Map::new(
        |l: Seq<char>| exists|i: int| 0 <= i < s.len() && (#[trigger] s[i]).0 == l,
        |l: Seq<char>| s[choose|i: int| 0 <= i < s.len() && (#[trigger] s[i]).0 == l].1,
    )
}

proof fn lemma_translation_map(s: Seq<(Seq<char>, Seq<char>)>)
    requires
        distinct_langs(s),
    ensures
        forall|i: int|
            0 <= i < s.len() ==> translation_map(s).dom().contains(#[trigger] s[i].0) && translation_map(
                s,
            )[s[i].0] == s[i].1,
{
    assert forall|i: int| 0 <= i < s.len() implies translation_map(s).dom().contains(#[trigger] s[i].0)
        && translation_map(s)[s[i].0] == s[i].1 by {
        let j = choose|j: int| 0 <= j < s.len() && (#[trigger] s[j]).0 == s[i].0;
        if j < i {
            assert(s[j].0 != s[i].0);
        } else if i < j {
            assert(s[i].0 != s[j].0);
        }
    }
}

/// Splits translations into the parallel language and text arrays the
/// database functions take; no translations give two empty arrays.
pub fn get_i18n_arg_arrays(vec_data: Option<Translations>) -> (r: (Vec<String>, Vec<String>))
    ensures
        vec_data is None ==> r.0@.len() == 0 && r.1@.len() == 0,
        vec_data matches Some(t) ==> {
            &&& r.0@.len() == t@.len()
            &&& r.1@.len() == t@.len()
            &&& forall|i: int| 0 <= i < t@.len() ==> #[trigger] r.0@[i]@ == t@[i].0 && r.1@[i]@ == t@[i].1
            &&& forall|i: int, j: int| 0 <= i < j < t@.len() ==> #[trigger] r.0@[i]@ != #[trigger] r.0@[j]@
            &&& forall|l: Seq<char>|
                translation_map(t@).dom().contains(l) <==> exists|i: int|
                    0 <= i < t@.len() && #[trigger] r.0@[i]@ == l
            &&& forall|i: int|
                0 <= i < t@.len() ==> translation_map(t@)[#[trigger] r.0@[i]@] == r.1@[i]@
        },
{
    match vec_data {
        None => (Vec::new(), Vec::new()),
        Some(t) => {
            let entries = t.entries();
            let mut langs: Vec<String> = Vec::new();
            let mut texts: Vec<String> = Vec::new();
            let mut i: usize = 0;
            while i < entries.len()
                invariant
                    0 <= i <= entries@.len(),
                    entry_views(entries@) == t@,
                    langs@.len() == i,
                    texts@.len() == i,
                    forall|k: int| 0 <= k < i ==> #[trigger] langs@[k]@ == t@[k].0 && texts@[k]@ == t@[k].1,
                decreases entries@.len() - i,
            {
                assert(t@[i as int] == (entries@[i as int].0@, entries@[i as int].1@));
                let l = entries[i].0.clone();
                let x = entries[i].1.clone();
                assert(l@ == t@[i as int].0 && x@ == t@[i as int].1);
                let ghost old_langs = langs@;
                let ghost old_texts = texts@;
                langs.push(l);
                texts.push(x);
                assert forall|k: int| 0 <= k < i + 1 implies #[trigger] langs@[k]@ == t@[k].0 && texts@[k]@
                    == t@[k].1 by {
                    if k < i {
                        assert(langs@[k] == old_langs[k]);
                        assert(texts@[k] == old_texts[k]);
                    }
                }
                i = i + 1;
            }
            proof {
                lemma_translation_map(t@);
                assert forall|i: int, j: int| 0 <= i < j < t@.len() implies #[trigger] langs@[i]@
                    != #[trigger] langs@[j]@ by {
                    assert(t@[i].0 != t@[j].0);
                }
                assert forall|l: Seq<char>|
                    translation_map(t@).dom().contains(l) implies exists|i: int|
                        0 <= i < t@.len() && #[trigger] langs@[i]@ == l by {
                    let i = choose|i: int| 0 <= i < t@.len() && (#[trigger] t@[i]).0 == l;
                    assert(langs@[i]@ == l);
                }
                assert forall|i: int| 0 <= i < t@.len() implies translation_map(t@)[#[trigger] langs@[i]@]
                    == texts@[i]@ by {
                    assert(langs@[i]@ == t@[i].0);
                }
            }
            (langs, texts)
        },
    }
}

} // verus!
