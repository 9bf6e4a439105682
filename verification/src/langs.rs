//! The language knowledge base and the primary-language resolution order.

use vstd::prelude::*;

verus! {

/// One entry of the language knowledge base.
#[derive(Clone, Debug)]
pub struct LanguageRecord {
    /// Language identifier, such as `en_Latn`.
    pub id: String,
    /// Script identifier, when the entry declares one.
    pub script: Option<String>,
    /// Number of speakers recorded for the language.
    pub population: i64,
}

/// The mathematical content of a [`LanguageRecord`].
pub struct LanguageView {
    pub id: Seq<char>,
    pub script: Option<Seq<char>>,
    pub population: int,
}

impl View for LanguageRecord {
    type V = LanguageView;

    open spec fn view(&self) -> LanguageView {
        LanguageView {
            id: self.id@,
            script: match self.script {
                Some(s) => Some(s@),
                None => None,
            },
            population: self.population as int,
        }
    }
}

impl DeepView for LanguageRecord {
    type V = LanguageView;

    open spec fn deep_view(&self) -> LanguageView {
        self.view()
    }
}

/// The bundled language knowledge base, as a vector of records.
///
/// Relies on `google_fonts_languages::LANGUAGES`: the bundled ordered map
/// from language id to language data. Each entry is handed out with its map
/// key as `id` and the `script` and `population` fields of its data, and the
/// base holds an entry whose id is `en_Latn`.
#[verifier::external_body]
pub fn iter_languages() -> (r: Vec<LanguageRecord>)
    ensures
        exists|i: int| 0 <= i < r@.len() && (#[trigger] r@[i].id@) == "en_Latn"@,
{
    let mut v = Vec::new();
    for (key, l) in google_fonts_languages::LANGUAGES.iter() {
        v.push(LanguageRecord {
            id: key.clone(),
            script: l.script.clone(),
            population: l.population() as i64,
        });
    }
    v
}

/// Index of the first entry whose id is `id`, looking from `from` on.
pub open spec fn first_with_id_from(langs: Seq<LanguageView>, id: Seq<char>, from: int) -> Option<
    int,
>
    decreases langs.len() - from,
{
    if from >= langs.len() || from < 0 {
        None
    } else if langs[from].id == id {
        Some(from)
    } else {
        first_with_id_from(langs, id, from + 1)
    }
}

/// Index of the first entry whose id is `id`.
pub open spec fn first_with_id(langs: Seq<LanguageView>, id: Seq<char>) -> Option<int> {
    first_with_id_from(langs, id, 0)
}

/// What a successful or failed [`first_with_id_from`] means.
pub proof fn lemma_first_with_id_from(langs: Seq<LanguageView>, id: Seq<char>, from: int)
    requires
        0 <= from <= langs.len(),
    ensures
        match first_with_id_from(langs, id, from) {
            Some(i) => from <= i < langs.len() && langs[i].id == id && forall|j: int|
                from <= j < i ==> langs[j].id != id,
            None => forall|j: int| from <= j < langs.len() ==> langs[j].id != id,
        },
    decreases langs.len() - from,
{
    if from < langs.len() && langs[from].id != id {
        lemma_first_with_id_from(langs, id, from + 1);
    }
}

/// Among the first `n` entries, the index of the best entry whose script is
/// `script`: greatest population, and on a population tie the later entry.
pub open spec fn best_script_upto(langs: Seq<LanguageView>, script: Seq<char>, n: int) -> Option<
    int,
>
    decreases n,
{
    if n <= 0 || n > langs.len() {
        None
    } else {
        let prev = best_script_upto(langs, script, n - 1);
        let c = langs[n - 1];
        if c.script == Some(script) {
            match prev {
                None => Some(n - 1),
                Some(b) => if c.population >= langs[b].population {
                    Some(n - 1)
                } else {
                    Some(b)
                },
            }
        } else {
            prev
        }
    }
}

/// The index of the best entry for `script` over the whole base.
pub open spec fn best_script_idx(langs: Seq<LanguageView>, script: Seq<char>) -> Option<int> {
    best_script_upto(langs, script, langs.len() as int)
}

/// What [`best_script_upto`] picks: a script match of maximal population,
/// and the last one among the maxima.
pub proof fn lemma_best_script_upto(langs: Seq<LanguageView>, script: Seq<char>, n: int)
    requires
        0 <= n <= langs.len(),
    ensures
        match best_script_upto(langs, script, n) {
            Some(b) => 0 <= b < n && langs[b].script == Some(script) && (forall|j: int|
                0 <= j < n && #[trigger] langs[j].script == Some(script) ==> langs[j].population
                    <= langs[b].population) && (forall|j: int|
                b < j < n && #[trigger] langs[j].script == Some(script) ==> langs[j].population
                    < langs[b].population),
            None => forall|j: int| 0 <= j < n ==> #[trigger] langs[j].script != Some(script),
        },
    decreases n,
{
    if n > 0 {
        lemma_best_script_upto(langs, script, n - 1);
    }
}

} // verus!
