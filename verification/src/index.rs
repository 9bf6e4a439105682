//! The lazy, cached repository index.
//!
//! A [`GoogleFonts`] value owns a repository root, an optional family-name
//! filter, the bundled language knowledge base, and four write-once caches:
//! discovered family records, the reverse font-file index, tag entries and
//! tag definitions. The index itself never touches the filesystem: the
//! caller walks the repository, reads the files, and hands their contents in
//! through the `provide` methods exactly once; every accessor then serves
//! the cached data unchanged, however often it is called.

use vstd::prelude::*;

use crate::langs::{
    best_script_idx, best_script_upto, first_with_id, first_with_id_from, iter_languages,
    lemma_best_script_upto, lemma_first_with_id_from, LanguageRecord, LanguageView,
};
use crate::records::{read_family, FamilyRecord, FamilyView, FontRecord, FontView, ParseError};
use crate::records::family_read_spec;
use crate::tags::{
    read_tag_metadata, read_tag_metadata_spec, read_tags, read_tags_spec, TagError, TagMetadata,
    TagMetadataView, Tagging, TagView,
};
use crate::text::{chars_of, opt_str_view, rfind, str_eq, string_from_chars, sub_chars, vec_rfind};

verus! {

/// Whether the regular expression `pat` compiles and matches somewhere in
/// `hay`; a function of the two texts alone. `None` when `pat` does not
/// compile.
pub uninterp spec fn regex_find_of(pat: Seq<char>, hay: Seq<char>) -> Option<bool>;

/// Relies on `regex::Regex::new` and `regex::Regex::find`: whether the
/// pattern compiles and, when it does, whether it matches anywhere in the
/// haystack; a function of pattern and haystack alone.
#[verifier::external_body]
fn regex_find(pat: &str, hay: &str) -> (r: Option<bool>)
    ensures
        r == regex_find_of(pat@, hay@),
{
    match regex::Regex::new(pat) {
        Ok(re) => Some(re.find(hay).is_some()),
        Err(_) => None,
    }
}

/// Whether the family filter admits a path: no filter admits every path, a
/// filter admits the paths it matches, and a filter that is not a valid
/// pattern admits none.
pub open spec fn filter_admits(filter: Option<Seq<char>>, path: Seq<char>) -> bool {
    match filter {
        None => true,
        Some(p) => regex_find_of(p, path) == Some(true),
    }
}

/// The view of one discovered-family entry.
pub open spec fn fam_entry_view(e: (String, Result<FamilyRecord, ParseError>)) -> (
    Seq<char>,
    Result<FamilyView, ParseError>,
) {
    (
        e.0@,
        match e.1 {
            Ok(f) => Ok(f@),
            Err(x) => Err(x),
        },
    )
}

/// The view of the discovered-family list.
pub open spec fn fams_view(v: Seq<(String, Result<FamilyRecord, ParseError>)>) -> Seq<
    (Seq<char>, Result<FamilyView, ParseError>),
> {
    v.map_values(|e: (String, Result<FamilyRecord, ParseError>)| fam_entry_view(e))
}

/// The view of a list of (path, content) files.
pub open spec fn files_view(v: Seq<(String, String)>) -> Seq<(Seq<char>, Seq<char>)> {
    v.map_values(|e: (String, String)| (e.0@, e.1@))
}

/// What scanning the discovered files from `i` on yields: for each admitted
/// file, in order, its path and the outcome of reading it as a family
/// record.
pub open spec fn scan_from(
    files: Seq<(Seq<char>, Seq<char>)>,
    filter: Option<Seq<char>>,
    i: int,
) -> Seq<(Seq<char>, Result<FamilyView, ParseError>)>
    decreases files.len() - i,
{
    if i >= files.len() || i < 0 {
        Seq::empty()
    } else {
        let rest = scan_from(files, filter, i + 1);
        if filter_admits(filter, files[i].0) {
            seq![(files[i].0, family_read_spec(files[i].1))] + rest
        } else {
            rest
        }
    }
}

/// What scanning all discovered files yields.
pub open spec fn scan_spec(
    files: Seq<(Seq<char>, Seq<char>)>,
    filter: Option<Seq<char>>,
) -> Seq<(Seq<char>, Result<FamilyView, ParseError>)> {
    scan_from(files, filter, 0)
}

/// The (file name, family index) pairs of one entry: one pair per font of a
/// successfully parsed family, none for a failed parse.
pub open spec fn fam_pairs(e: (Seq<char>, Result<FamilyView, ParseError>), idx: int) -> Seq<
    (Seq<char>, int),
> {
    match e.1 {
        Ok(f) => f.fonts.map_values(|fo: FontView| (fo.filename, idx)),
        Err(_) => Seq::empty(),
    }
}

/// The (file name, family index) pairs of the first `n` entries, in
/// discovery order.
pub open spec fn font_pairs_upto(
    entries: Seq<(Seq<char>, Result<FamilyView, ParseError>)>,
    n: int,
) -> Seq<(Seq<char>, int)>
    decreases n,
{
    if n <= 0 {
        Seq::empty()
    } else {
        font_pairs_upto(entries, n - 1) + fam_pairs(entries[n - 1], n - 1)
    }
}

/// All (file name, family index) pairs of the discovered families.
pub open spec fn font_pairs(entries: Seq<(Seq<char>, Result<FamilyView, ParseError>)>) -> Seq<
    (Seq<char>, int),
> {
    font_pairs_upto(entries, entries.len() as int)
}

/// The value of the last pair holding `name`: the reverse index is
/// last-write-wins in discovery order.
pub open spec fn last_pair(pairs: Seq<(Seq<char>, int)>, name: Seq<char>) -> Option<int>
    decreases pairs.len(),
{
    if pairs.len() == 0 {
        None
    } else if pairs.last().0 == name {
        Some(pairs.last().1)
    } else {
        last_pair(pairs.drop_last(), name)
    }
}

/// The view of the cached reverse-index pairs.
pub open spec fn pairs_view(v: Seq<(String, usize)>) -> Seq<(Seq<char>, int)> {
    v.map_values(|p: (String, usize)| (p.0@, p.1 as int))
}

/// Every pair of the reverse index points at a successfully parsed entry.
pub proof fn lemma_font_pairs_valid(
    entries: Seq<(Seq<char>, Result<FamilyView, ParseError>)>,
    n: int,
)
    requires
        0 <= n <= entries.len(),
    ensures
        forall|k: int|
            0 <= k < font_pairs_upto(entries, n).len() ==> {
                let pr = #[trigger] font_pairs_upto(entries, n)[k];
                0 <= pr.1 < n && entries[pr.1].1 is Ok
            },
    decreases n,
{
    if n > 0 {
        lemma_font_pairs_valid(entries, n - 1);
    }
}

/// A found pair behind [`last_pair`] really stands in the list, and a `None`
/// means no pair holds the name.
pub proof fn lemma_last_pair(pairs: Seq<(Seq<char>, int)>, name: Seq<char>)
    ensures
        match last_pair(pairs, name) {
            Some(x) => exists|k: int|
                0 <= k < pairs.len() && #[trigger] pairs[k] == (name, x),
            None => forall|k: int| 0 <= k < pairs.len() ==> (#[trigger] pairs[k]).0 != name,
        },
    decreases pairs.len(),
{
    if pairs.len() > 0 {
        if pairs.last().0 == name {
            assert(pairs[pairs.len() - 1] == (name, pairs.last().1));
        } else {
            lemma_last_pair(pairs.drop_last(), name);
            match last_pair(pairs.drop_last(), name) {
                Some(x) => {
                    let k = choose|k: int|
                        0 <= k < pairs.drop_last().len() && #[trigger] pairs.drop_last()[k] == (
                        name,
                        x,
                        );
                    assert(pairs.drop_last()[k] == pairs[k]);
                    assert(pairs[k] == (name, x));
                },
                None => {
                    assert forall|k: int| 0 <= k < pairs.len() implies (#[trigger] pairs[k]).0
                        != name by {
                        if k < pairs.len() - 1 {
                            assert(pairs.drop_last()[k] == pairs[k]);
                        }
                    }
                },
            }
        }
    }
}

/// The pair at `j` wins when no later pair holds the name.
pub proof fn lemma_last_pair_at(pairs: Seq<(Seq<char>, int)>, name: Seq<char>, j: int)
    requires
        0 <= j < pairs.len(),
        pairs[j].0 == name,
        forall|k: int| j < k < pairs.len() ==> (#[trigger] pairs[k]).0 != name,
    ensures
        last_pair(pairs, name) == Some(pairs[j].1),
    decreases pairs.len(),
{
    if j < pairs.len() - 1 {
        assert(pairs.drop_last()[j] == pairs[j]);
        lemma_last_pair_at(pairs.drop_last(), name, j);
    }
}

/// No pair holds the name: the lookup misses.
pub proof fn lemma_last_pair_none(pairs: Seq<(Seq<char>, int)>, name: Seq<char>)
    requires
        forall|k: int| 0 <= k < pairs.len() ==> (#[trigger] pairs[k]).0 != name,
    ensures
        last_pair(pairs, name) is None,
    decreases pairs.len(),
{
    if pairs.len() > 0 {
        assert(forall|k: int|
            0 <= k < pairs.drop_last().len() ==> (#[trigger] pairs.drop_last()[k]).0 != name);
        lemma_last_pair_none(pairs.drop_last(), name);
    }
}

/// The path of a file named `name` sitting beside the file at `p`: the last
/// path component of `p` is replaced by `name`.
pub open spec fn sibling_path(p: Seq<char>, name: Seq<char>) -> Seq<char> {
    match rfind(p, '/') {
        Some(k) => p.subrange(0, k + 1) + name,
        None => name,
    }
}

/// Which language the three-step fallback settles on, as an index into the
/// knowledge base: the first entry with the declared primary-language id;
/// else the best entry for the declared primary script; else the first entry
/// with id `en_Latn`.
pub open spec fn resolve_primary_idx(langs: Seq<LanguageView>, fam: FamilyView) -> Option<int> {
    let step1 = match fam.primary_language {
        Some(pl) => first_with_id(langs, pl),
        None => None,
    };
    if step1 is Some {
        step1
    } else {
        let step2 = match fam.primary_script {
            Some(ps) => best_script_idx(langs, ps),
            None => None,
        };
        if step2 is Some {
            step2
        } else {
            first_with_id(langs, "en_Latn"@)
        }
    }
}

/// The resolution never comes up empty while the knowledge base holds the
/// final fallback id.
pub proof fn lemma_resolve_primary_some(langs: Seq<LanguageView>, fam: FamilyView)
    requires
        first_with_id(langs, "en_Latn"@) is Some,
    ensures
        resolve_primary_idx(langs, fam) is Some,
        match resolve_primary_idx(langs, fam) {
            Some(i) => 0 <= i < langs.len(),
            None => false,
        },
{
    lemma_first_with_id_from(langs, "en_Latn"@, 0);
    match fam.primary_language {
        Some(pl) => lemma_first_with_id_from(langs, pl, 0),
        None => {},
    }
    match fam.primary_script {
        Some(ps) => lemma_best_script_upto(langs, ps, langs.len() as int),
        None => {},
    }
}

/// A view into a font repository checkout.
///
/// The value holds the repository root path, the optional family-name
/// filter, the bundled language knowledge base, and four write-once caches.
/// The caller performs the filesystem work and hands the raw file contents
/// in; all parsing, filtering, indexing and resolution happens here.
pub struct GoogleFonts {
    repo_dir: String,
    family_filter: Option<String>,
    languages: Vec<LanguageRecord>,
    families: Option<Vec<(String, Result<FamilyRecord, ParseError>)>>,
    family_by_font_file: Option<Vec<(String, usize)>>,
    tags: Option<Result<Vec<Tagging>, TagError>>,
    tag_metadata: Option<Result<Vec<TagMetadata>, TagError>>,
}

impl GoogleFonts {
    /// The repository root path.
    pub closed spec fn spec_repo_dir(self) -> Seq<char> {
        self.repo_dir@
    }

    /// The family-name filter pattern, when one was given.
    pub closed spec fn spec_filter(self) -> Option<Seq<char>> {
        opt_str_view(self.family_filter)
    }

    /// The knowledge-base entries, in the order they are scanned.
    pub closed spec fn langs(self) -> Seq<LanguageView> {
        self.languages.deep_view()
    }

    /// Whether the family cache has been filled.
    pub closed spec fn families_loaded(self) -> bool {
        self.families is Some
    }

    /// The cached discovered-family entries.
    pub closed spec fn fam_entries(self) -> Seq<(Seq<char>, Result<FamilyView, ParseError>)> {
        match self.families {
            Some(v) => fams_view(v@),
            None => Seq::empty(),
        }
    }

    /// Whether the reverse font-file index has been built.
    pub closed spec fn font_index_built(self) -> bool {
        self.family_by_font_file is Some
    }

    /// Whether the tag cache has been filled.
    pub closed spec fn tags_loaded(self) -> bool {
        self.tags is Some
    }

    /// The cached outcome of reading the tag files.
    pub closed spec fn tags_state(self) -> Result<Seq<TagView>, TagError> {
        match self.tags {
            Some(Ok(v)) => Ok(v.deep_view()),
            Some(Err(e)) => Err(e),
            None => Ok(Seq::empty()),
        }
    }

    /// Whether the tag-definition cache has been filled.
    pub closed spec fn tag_metadata_loaded(self) -> bool {
        self.tag_metadata is Some
    }

    /// The cached outcome of reading the tag-definition file.
    pub closed spec fn tag_metadata_state(self) -> Result<Seq<TagMetadataView>, TagError> {
        match self.tag_metadata {
            Some(Ok(v)) => Ok(v.deep_view()),
            Some(Err(e)) => Err(e),
            None => Ok(Seq::empty()),
        }
    }

    /// The knowledge base holds the final fallback language.
    pub open spec fn kb_has_default(self) -> bool {
        first_with_id(self.langs(), "en_Latn"@) is Some
    }

    /// The index's invariant: the fallback language is known, and the
    /// reverse index, once built, holds exactly the font pairs of the
    /// cached families.
    pub closed spec fn wf(self) -> bool {
        &&& self.kb_has_default()
        &&& match self.family_by_font_file {
            Some(m) => self.families is Some && pairs_view(m@) == font_pairs(self.fam_entries()),
            None => true,
        }
    }

    /// Creates a new index over a repository checkout.
    ///
    /// `repo_dir` is the root of the checkout; `family_filter`, when given,
    /// is a regular expression applied to the full path of each discovered
    /// metadata file. No filesystem work happens here; the caches start
    /// unset, and the bundled language knowledge base is loaded.
    pub fn new(repo_dir: String, family_filter: Option<String>) -> (r: GoogleFonts)
        ensures
            r.wf(),
            r.spec_repo_dir() == repo_dir@,
            r.spec_filter() == opt_str_view(family_filter),
            !r.families_loaded(),
            !r.font_index_built(),
            !r.tags_loaded(),
            !r.tag_metadata_loaded(),
            r.kb_has_default(),
    {
        let languages = iter_languages();
        proof {
            lemma_first_with_id_from(languages.deep_view(), "en_Latn"@, 0);
            if first_with_id(languages.deep_view(), "en_Latn"@) is None {
                let i = choose|i: int|
                    0 <= i < languages@.len() && (#[trigger] languages@[i].id@) == "en_Latn"@;
                assert(languages.deep_view()[i].id == "en_Latn"@);
                assert(false);
            }
        }
        GoogleFonts {
            repo_dir,
            family_filter,
            languages,
            families: None,
            family_by_font_file: None,
            tags: None,
            tag_metadata: None,
        }
    }

    /// The repository root path.
    pub fn repo_dir(&self) -> (r: &String)
        ensures
            r@ == self.spec_repo_dir(),
    {
        &self.repo_dir
    }

    /// Every known language, in knowledge-base order.
    pub fn languages(&self) -> (r: &Vec<LanguageRecord>)
        ensures
            r.deep_view() == self.langs(),
    {
        &self.languages
    }

    /// Looks a language up by its identifier: the first knowledge-base
    /// entry with that id, or `None` when the id is unknown.
    pub fn language(&self, lang_id: &str) -> (r: Option<&LanguageRecord>)
        ensures
            match r {
                Some(l) => exists|i: int|
                    first_with_id(self.langs(), lang_id@) == Some(i) && 0 <= i < self.langs().len()
                        && l@ == self.langs()[i],
                None => first_with_id(self.langs(), lang_id@) is None,
            },
    {
        let ghost lv = self.langs();
        let n = self.languages.len();
        let mut i: usize = 0;
        while i < n
            invariant
                i <= n == lv.len(),
                lv == self.langs(),
                forall|k: int| 0 <= k < lv.len() ==> #[trigger] lv[k] == self.languages@[k]@,
                first_with_id_from(lv, lang_id@, 0) == first_with_id_from(lv, lang_id@, i as int),
            decreases n - i,
        {
            if str_eq(self.languages[i].id.as_str(), lang_id) {
                return Some(&self.languages[i]);
            }
            i = i + 1;
        }
        None
    }

    /// Whether the family cache has been filled.
    pub fn has_families(&self) -> (r: bool)
        ensures
            r == self.families_loaded(),
    {
        self.families.is_some()
    }

    /// Fills the family cache from the discovered metadata files, exactly
    /// once.
    ///
    /// `files` holds, in discovery order, the path and text content of each
    /// file named `METADATA.pb` under the repository root. Paths the filter
    /// does not admit are dropped; every other file is read as a family
    /// record and cached with its path, parse failures included. A second
    /// call leaves the index unchanged.
    pub fn provide_family_files(&mut self, files: Vec<(String, String)>)
        requires
            old(self).wf(),
        ensures
            final(self).wf(),
            old(self).families_loaded() ==> *final(self) == *old(self),
            final(self).families_loaded(),
            !old(self).families_loaded() ==> final(self).fam_entries() == scan_spec(
                files_view(files@),
                old(self).spec_filter(),
            ),
            final(self).spec_repo_dir() == old(self).spec_repo_dir(),
            final(self).spec_filter() == old(self).spec_filter(),
            final(self).langs() == old(self).langs(),
            final(self).font_index_built() == old(self).font_index_built(),
            final(self).tags_loaded() == old(self).tags_loaded(),
            final(self).tags_state() == old(self).tags_state(),
            final(self).tag_metadata_loaded() == old(self).tag_metadata_loaded(),
            final(self).tag_metadata_state() == old(self).tag_metadata_state(),
    {
        if self.families.is_some() {
            return ;
        }
        let ghost fsv = files_view(files@);
        let ghost filt = self.spec_filter();
        let n = files.len();
        let mut acc: Vec<(String, Result<FamilyRecord, ParseError>)> = Vec::new();
        let mut i: usize = 0;
        while i < n
            invariant
                i <= n == fsv.len(),
                fsv == files_view(files@),
                filt == opt_str_view(self.family_filter),
                forall|k: int|
                    0 <= k < fsv.len() ==> #[trigger] fsv[k] == (files@[k].0@, files@[k].1@),
                fams_view(acc@) + scan_from(fsv, filt, i as int) == scan_from(fsv, filt, 0),
            decreases n - i,
        {
            let ghost acc0 = fams_view(acc@);
            let admitted: bool = match &self.family_filter {
                None => true,
                Some(p) => {
                    match regex_find(p.as_str(), files[i].0.as_str()) {
                        Some(true) => true,
                        _ => false,
                    }
                },
            };
            proof {
                assert(admitted == filter_admits(filt, fsv[i as int].0));
            }
            if admitted {
                let outcome = read_family(files[i].1.as_str());
                let entry = (files[i].0.clone(), outcome);
                proof {
                    assert(fam_entry_view(entry) == (fsv[i as int].0, family_read_spec(
                        fsv[i as int].1,
                    )));
                }
                acc.push(entry);
                proof {
                    assert(fams_view(acc@) =~= acc0.push(fam_entry_view(entry)));
                    assert(acc0 + (seq![fam_entry_view(entry)] + scan_from(fsv, filt, i + 1)) =~= fams_view(
                        acc@,
                    ) + scan_from(fsv, filt, i + 1));
                }
            }
            i = i + 1;
        }
        proof {
            assert(fams_view(acc@) + Seq::<(Seq<char>, Result<FamilyView, ParseError>)>::empty()
                =~= fams_view(acc@));
        }
        self.families = Some(acc);
    }

    /// The discovered families and their parse outcomes, in discovery
    /// order, as cached by [`GoogleFonts::provide_family_files`].
    pub fn families(&self) -> (r: &Vec<(String, Result<FamilyRecord, ParseError>)>)
        requires
            self.families_loaded(),
        ensures
            fams_view(r@) == self.fam_entries(),
    {
        match &self.families {
            Some(v) => v,
            None => vstd::pervasive::unreached(),
        }
    }

    /// Whether the reverse font-file index has been built.
    pub fn has_font_index(&self) -> (r: bool)
        ensures
            r == self.font_index_built(),
    {
        self.family_by_font_file.is_some()
    }

    /// Builds the reverse index from font file name to owning family,
    /// exactly once.
    ///
    /// The index lists, in discovery order, one (file name, family index)
    /// pair per font of every successfully parsed family; a failed parse
    /// contributes nothing. A second call leaves the index unchanged.
    pub fn build_font_index(&mut self)
        requires
            old(self).wf(),
            old(self).families_loaded(),
        ensures
            final(self).wf(),
            old(self).font_index_built() ==> *final(self) == *old(self),
            final(self).font_index_built(),
            final(self).spec_repo_dir() == old(self).spec_repo_dir(),
            final(self).spec_filter() == old(self).spec_filter(),
            final(self).langs() == old(self).langs(),
            final(self).families_loaded() == old(self).families_loaded(),
            final(self).fam_entries() == old(self).fam_entries(),
            final(self).tags_loaded() == old(self).tags_loaded(),
            final(self).tags_state() == old(self).tags_state(),
            final(self).tag_metadata_loaded() == old(self).tag_metadata_loaded(),
            final(self).tag_metadata_state() == old(self).tag_metadata_state(),
    {
        if self.family_by_font_file.is_some() {
            return ;
        }
        let ghost entries = self.fam_entries();
        let fams = match &self.families {
            Some(v) => v,
            None => vstd::pervasive::unreached(),
        };
        let n = fams.len();
        let mut m: Vec<(String, usize)> = Vec::new();
        let mut i: usize = 0;
        while i < n
            invariant
                i <= n == entries.len(),
                entries == fams_view(fams@),
                forall|k: int|
                    0 <= k < entries.len() ==> #[trigger] entries[k] == fam_entry_view(fams@[k]),
                pairs_view(m@) == font_pairs_upto(entries, i as int),
            decreases n - i,
        {
            let ghost m0 = pairs_view(m@);
            match &fams[i].1 {
                Err(_) => {
                    proof {
                        assert(fam_pairs(entries[i as int], i as int) =~= Seq::<
                            (Seq<char>, int),
                        >::empty());
                        assert(pairs_view(m@) =~= font_pairs_upto(entries, i + 1));
                    }
                },
                Ok(f) => {
                    let ghost fp = fam_pairs(entries[i as int], i as int);
                    let fn_count = f.fonts.len();
                    let mut j: usize = 0;
                    proof {
                        assert(entries[i as int].1 == Ok::<FamilyView, ParseError>(f@));
                        assert(fp =~= f@.fonts.map_values(|fo: FontView| (fo.filename, i as int)));
                        assert(fp.len() == fn_count);
                        assert(m0 + fp.take(0) =~= m0);
                    }
                    while j < fn_count
                        invariant
                            j <= fn_count == f.fonts@.len(),
                            i < entries.len(),
                            fp == fam_pairs(entries[i as int], i as int),
                            fp.len() == fn_count,
                            forall|k: int|
                                0 <= k < fn_count ==> #[trigger] fp[k] == (
                                    f.fonts@[k]@.filename,
                                    i as int,
                                ),
                            pairs_view(m@) == m0 + fp.take(j as int),
                        decreases fn_count - j,
                    {
                        let ghost mj = pairs_view(m@);
                        m.push((f.fonts[j].filename.clone(), i));
                        proof {
                            assert(pairs_view(m@) =~= mj.push((f.fonts@[j as int]@.filename,
                            i as int)));
                            assert(fp.take(j + 1) =~= fp.take(j as int).push(fp[j as int]));
                            assert(pairs_view(m@) =~= m0 + fp.take(j + 1));
                        }
                        j = j + 1;
                    }
                    proof {
                        assert(fp.take(fn_count as int) =~= fp);
                        assert(pairs_view(m@) =~= font_pairs_upto(entries, i + 1));
                    }
                },
            }
            i = i + 1;
        }
        self.family_by_font_file = Some(m);
        proof {
            assert(self.fam_entries() == entries);
        }
    }

    /// Resolves a font back to its owning family by file name.
    ///
    /// The answer is the path and record of the last successfully parsed
    /// family, in discovery order, that lists a font with this file name;
    /// `None` when no parsed family lists it. A font of a family whose
    /// record failed to parse is unresolvable.
    pub fn family(&self, font: &FontRecord) -> (r: Option<(&String, &FamilyRecord)>)
        requires
            self.wf(),
            self.font_index_built(),
        ensures
            match r {
                Some(pf) => exists|i: int|
                    last_pair(font_pairs(self.fam_entries()), font@.filename) == Some(i) && 0 <= i
                        < self.fam_entries().len() && pf.0@ == self.fam_entries()[i].0
                        && self.fam_entries()[i].1 == Ok::<FamilyView, ParseError>(pf.1@),
                None => last_pair(font_pairs(self.fam_entries()), font@.filename) is None,
            },
    {
        let ghost entries = self.fam_entries();
        let ghost pairs = font_pairs(entries);
        let m = match &self.family_by_font_file {
            Some(m) => m,
            None => vstd::pervasive::unreached(),
        };
        let fams = match &self.families {
            Some(v) => v,
            None => vstd::pervasive::unreached(),
        };
        let ghost name = font@.filename;
        proof {
            assert(pairs_view(m@) == pairs);
            lemma_font_pairs_valid(entries, entries.len() as int);
        }
        let len = m.len();
        let mut j: usize = len;
        while j > 0
            invariant
                j <= len == pairs.len(),
                pairs == pairs_view(m@),
                entries == self.fam_entries(),
                entries == fams_view(fams@),
                fams@.len() == entries.len(),
                forall|k: int|
                    0 <= k < entries.len() ==> #[trigger] entries[k] == fam_entry_view(fams@[k]),
                pairs == font_pairs(entries),
                name == font@.filename,
                forall|k: int| 0 <= k < pairs.len() ==> #[trigger] pairs[k] == (m@[k].0@, m@[k].1 as int),
                forall|k: int| j <= k < pairs.len() ==> (#[trigger] pairs[k]).0 != name,
            decreases j,
        {
            j = j - 1;
            if str_eq(m[j].0.as_str(), font.filename.as_str()) {
                let idx = m[j].1;
                proof {
                    lemma_last_pair_at(pairs, name, j as int);
                    lemma_font_pairs_valid(entries, entries.len() as int);
                    assert(pairs[j as int].1 == idx as int);
                    assert(0 <= idx < entries.len() && entries[idx as int].1 is Ok);
                    assert(entries[idx as int] == fam_entry_view(fams@[idx as int]));
                }
                match &fams[idx].1 {
                    Ok(f) => {
                        return Some((&fams[idx].0, f));
                    },
                    Err(_) => {
                        return vstd::pervasive::unreached();
                    },
                }
            }
        }
        proof {
            lemma_last_pair_none(pairs, name);
        }
        None
    }

    /// The path where the binary of this font would sit: the font's file
    /// name beside its family's metadata file. `None` when the font
    /// resolves to no family.
    pub fn font_binary_candidate(&self, font: &FontRecord) -> (r: Option<String>)
        requires
            self.wf(),
            self.font_index_built(),
        ensures
            match r {
                Some(p) => exists|i: int|
                    last_pair(font_pairs(self.fam_entries()), font@.filename) == Some(i) && 0 <= i
                        < self.fam_entries().len() && p@ == sibling_path(
                        self.fam_entries()[i].0,
                        font@.filename,
                    ),
                None => last_pair(font_pairs(self.fam_entries()), font@.filename) is None,
            },
    {
        match self.family(font) {
            None => None,
            Some((path, _)) => {
                let pc = chars_of(path.as_str());
                let fc = chars_of(font.filename.as_str());
                let mut out: Vec<char>;
                let pcl = pc.len();
                match vec_rfind(&pc, '/') {
                    Some(k) => {
                        proof {
                            assert(k < pcl);
                        }
                        out = sub_chars(&pc, 0, k + 1);
                    },
                    None => {
                        out = Vec::new();
                    },
                }
                let mut tail = fc;
                out.append(&mut tail);
                let s = string_from_chars(&out);
                proof {
                    match rfind(path@, '/') {
                        Some(k) => {
                            assert(out@ =~= path@.subrange(0, k + 1) + font@.filename);
                        },
                        None => {
                            assert(out@ =~= font@.filename);
                        },
                    }
                }
                Some(s)
            },
        }
    }

    /// Finds the path to the font binary for a font.
    ///
    /// `on_disk` says whether the candidate path - the font's file name
    /// beside its family's metadata file - names an existing file, which
    /// only the caller's filesystem can tell. The path is returned exactly
    /// when the font resolves to a family and the file is present; a
    /// missing file yields `None`, not an error.
    pub fn find_font_binary(&self, font: &FontRecord, on_disk: bool) -> (r: Option<String>)
        requires
            self.wf(),
            self.font_index_built(),
        ensures
            match r {
                Some(p) => on_disk && exists|i: int|
                    last_pair(font_pairs(self.fam_entries()), font@.filename) == Some(i) && 0 <= i
                        < self.fam_entries().len() && p@ == sibling_path(
                        self.fam_entries()[i].0,
                        font@.filename,
                    ),
                None => !on_disk || last_pair(font_pairs(self.fam_entries()), font@.filename)
                    is None,
            },
    {
        if !on_disk {
            return None;
        }
        self.font_binary_candidate(font)
    }

    /// Our best guess at the primary language for this family.
    ///
    /// Meant to be a good choice for things like rendering a sample string.
    /// The first of these wins: the family's declared primary language, when
    /// the knowledge base knows it; the most populous knowledge-base entry
    /// using the family's declared primary script, later entries winning
    /// population ties; the final fallback `en_Latn`.
    pub fn primary_language(&self, family: &FamilyRecord) -> (r: &LanguageRecord)
        requires
            self.wf(),
        ensures
            exists|i: int|
                resolve_primary_idx(self.langs(), family@) == Some(i) && 0 <= i
                    < self.langs().len() && r@ == self.langs()[i],
    {
        proof {
            lemma_resolve_primary_some(self.langs(), family@);
        }
        let ghost lv = self.langs();
        if let Some(pl) = &family.primary_language {
            if let Some(l) = self.language(pl.as_str()) {
                return l;
            }
        }
        if let Some(ps) = &family.primary_script {
            let n = self.languages.len();
            let mut best: Option<usize> = None;
            let mut i: usize = 0;
            while i < n
                invariant
                    i <= n == lv.len(),
                    lv == self.langs(),
                    forall|k: int| 0 <= k < lv.len() ==> #[trigger] lv[k] == self.languages@[k]@,
                    match best {
                        Some(b) => b < i && best_script_upto(lv, ps@, i as int) == Some(b as int),
                        None => best_script_upto(lv, ps@, i as int) is None,
                    },
                decreases n - i,
            {
                let matches_script: bool = match &self.languages[i].script {
                    Some(sc) => str_eq(sc.as_str(), ps.as_str()),
                    None => false,
                };
                proof {
                    assert(matches_script == (lv[i as int].script == Some(ps@)));
                }
                if matches_script {
                    match best {
                        None => {
                            best = Some(i);
                        },
                        Some(b) => {
                            if self.languages[i].population >= self.languages[b].population {
                                best = Some(i);
                            }
                        },
                    }
                }
                i = i + 1;
            }
            if let Some(b) = best {
                return &self.languages[b];
            }
        }
        match self.language("en_Latn") {
            Some(l) => l,
            None => vstd::pervasive::unreached(),
        }
    }

    /// Whether the tag cache has been filled.
    pub fn has_tags(&self) -> (r: bool)
        ensures
            r == self.tags_loaded(),
    {
        self.tags.is_some()
    }

    /// Fills the tag cache, exactly once.
    ///
    /// `lines` holds every row of the repository's tag files, in file and
    /// row order, or `None` when the files could not be read; that failure
    /// is cached just like a parse failure. A second call leaves the index
    /// unchanged.
    pub fn provide_tag_lines(&mut self, lines: Option<Vec<String>>)
        requires
            old(self).wf(),
        ensures
            final(self).wf(),
            old(self).tags_loaded() ==> *final(self) == *old(self),
            final(self).tags_loaded(),
            !old(self).tags_loaded() ==> final(self).tags_state() == match lines {
                Some(ls) => read_tags_spec(ls.deep_view()),
                None => Err::<Seq<TagView>, TagError>(TagError::Io),
            },
            final(self).spec_repo_dir() == old(self).spec_repo_dir(),
            final(self).spec_filter() == old(self).spec_filter(),
            final(self).langs() == old(self).langs(),
            final(self).families_loaded() == old(self).families_loaded(),
            final(self).fam_entries() == old(self).fam_entries(),
            final(self).font_index_built() == old(self).font_index_built(),
            final(self).tag_metadata_loaded() == old(self).tag_metadata_loaded(),
            final(self).tag_metadata_state() == old(self).tag_metadata_state(),
    {
        if self.tags.is_some() {
            return ;
        }
        let outcome = match lines {
            Some(ls) => read_tags(&ls),
            None => Err(TagError::Io),
        };
        self.tags = Some(outcome);
    }

    /// The parsed tag entries, or the cached failure, as filled in by
    /// [`GoogleFonts::provide_tag_lines`].
    pub fn tags(&self) -> (r: Result<&Vec<Tagging>, &TagError>)
        requires
            self.tags_loaded(),
        ensures
            match r {
                Ok(v) => self.tags_state() == Ok::<Seq<TagView>, TagError>(v.deep_view()),
                Err(e) => self.tags_state() == Err::<Seq<TagView>, TagError>(*e),
            },
    {
        match &self.tags {
            Some(Ok(v)) => Ok(v),
            Some(Err(e)) => Err(e),
            None => vstd::pervasive::unreached(),
        }
    }

    /// Whether the tag-definition cache has been filled.
    pub fn has_tag_metadata(&self) -> (r: bool)
        ensures
            r == self.tag_metadata_loaded(),
    {
        self.tag_metadata.is_some()
    }

    /// Fills the tag-definition cache, exactly once.
    ///
    /// `lines` holds every row of the repository's tag-definition file, in
    /// order, or `None` when the file could not be read; that failure is
    /// cached just like a parse failure. A second call leaves the index
    /// unchanged.
    pub fn provide_tag_metadata_lines(&mut self, lines: Option<Vec<String>>)
        requires
            old(self).wf(),
        ensures
            final(self).wf(),
            old(self).tag_metadata_loaded() ==> *final(self) == *old(self),
            final(self).tag_metadata_loaded(),
            !old(self).tag_metadata_loaded() ==> final(self).tag_metadata_state() == match lines {
                Some(ls) => read_tag_metadata_spec(ls.deep_view()),
                None => Err::<Seq<TagMetadataView>, TagError>(TagError::Io),
            },
            final(self).spec_repo_dir() == old(self).spec_repo_dir(),
            final(self).spec_filter() == old(self).spec_filter(),
            final(self).langs() == old(self).langs(),
            final(self).families_loaded() == old(self).families_loaded(),
            final(self).fam_entries() == old(self).fam_entries(),
            final(self).font_index_built() == old(self).font_index_built(),
            final(self).tags_loaded() == old(self).tags_loaded(),
            final(self).tags_state() == old(self).tags_state(),
    {
        if self.tag_metadata.is_some() {
            return ;
        }
        let outcome = match lines {
            Some(ls) => read_tag_metadata(&ls),
            None => Err(TagError::Io),
        };
        self.tag_metadata = Some(outcome);
    }

    /// The parsed tag definitions, or the cached failure, as filled in by
    /// [`GoogleFonts::provide_tag_metadata_lines`].
    pub fn tag_metadata(&self) -> (r: Result<&Vec<TagMetadata>, &TagError>)
        requires
            self.tag_metadata_loaded(),
        ensures
            match r {
                Ok(v) => self.tag_metadata_state() == Ok::<Seq<TagMetadataView>, TagError>(
                    v.deep_view(),
                ),
                Err(e) => self.tag_metadata_state() == Err::<Seq<TagMetadataView>, TagError>(*e),
            },
    {
        match &self.tag_metadata {
            Some(Ok(v)) => Ok(v),
            Some(Err(e)) => Err(e),
            None => vstd::pervasive::unreached(),
        }
    }
}

} // verus!
