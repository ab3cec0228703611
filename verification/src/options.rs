//! Search requests: the raw form a consumer fills in, and the checked
//! form the engine runs.

use vstd::prelude::*;
use std::rc::Rc;
use crate::files::{PitouFile, PitouFileFilter};
use crate::matcher::SearchType;
use crate::paths::PitouFilePath;
use crate::regexes::regex_compiles;

verus! {

/// A search request as a consumer writes it: the pattern still plain
/// text, the pattern form a numeric code.
pub struct SimplifiedSearchOptions {
    pub search_dir: Rc<PitouFile>,
    pub input: String,
    pub search_kind: u8,
    pub depth: u8,
    pub case_sensitive: bool,
    pub hardware_accelerate: bool,
    pub skip_errors: bool,
    pub filter: PitouFileFilter,
    pub max_finds: usize,
}

impl SimplifiedSearchOptions {
    /// The request form a fresh view starts from: an empty suffix
    /// pattern over everything, six levels deep, capped at 250 results.
    pub fn default(current_dir: Rc<PitouFile>) -> (r: Self)
        ensures
            r.search_dir == current_dir,
            r.input@.len() == 0,
            r.search_kind == 1,
            r.depth == 6,
            r.case_sensitive,
            !r.hardware_accelerate,
            r.skip_errors,
            r.filter.files && r.filter.dirs && r.filter.links,
            r.max_finds == 250,
    {
        Self {
            search_dir: current_dir,
            input: String::new(),
            search_kind: 1,
            depth: 6,
            case_sensitive: true,
            hardware_accelerate: false,
            skip_errors: true,
            filter: PitouFileFilter::include_all(),
            max_finds: 250,
        }
    }

    /// Checks the request: the pattern code and key become a
    /// [`SearchType`], every other field is carried over unchanged.
    /// Fails exactly when the code asks for a regular expression and
    /// the key is no valid pattern.
    pub fn try_into(self) -> (r: Option<SearchOptions>)
        ensures
            (r is Some <==> (self.search_kind <= 2 || regex_compiles(self.input@))),
            r matches Some(o) ==> {
                &&& o.search_dir == self.search_dir
                &&& o.filter == self.filter
                &&& o.case_sensitive == self.case_sensitive
                &&& o.hardware_accelerate == self.hardware_accelerate
                &&& o.skip_errors == self.skip_errors
                &&& o.depth == self.depth
                &&& o.max_finds == self.max_finds
                &&& (self.search_kind == 0 ==> (o.search_type matches SearchType::MatchBegining(
                    k,
                ) && k@ == self.input@))
                &&& (self.search_kind == 1 ==> (o.search_type matches SearchType::MatchEnding(k)
                    && k@ == self.input@))
                &&& (self.search_kind == 2 ==> (o.search_type matches SearchType::MatchMiddle(k)
                    && k@ == self.input@))
                &&& (self.search_kind >= 3 ==> (o.search_type matches SearchType::Regex(c)
                    && c.pattern() == self.input@))
            },
    {
        if let Some(search_type) = SearchType::parse_regex(self.search_kind, self.input) {
            let obj = SearchOptions {
                search_dir: self.search_dir,
                filter: self.filter,
                case_sensitive: self.case_sensitive,
                hardware_accelerate: self.hardware_accelerate,
                skip_errors: self.skip_errors,
                depth: self.depth,
                max_finds: self.max_finds,
                search_type,
            };
            Some(obj)
        } else {
            None
        }
    }
}

/// A checked search request, ready to run.
pub struct SearchOptions {
    pub search_dir: Rc<PitouFile>,
    pub hardware_accelerate: bool,
    pub filter: PitouFileFilter,
    pub case_sensitive: bool,
    pub depth: u8,
    pub search_type: SearchType,
    pub skip_errors: bool,
    pub max_finds: usize,
}

impl SearchOptions {
    /// A plain substring search for `key` under `search_dir`: case
    /// sensitive, six levels deep, files and directories, capped at
    /// 100 results.
    pub fn new(search_dir: Rc<PitouFile>, key: String) -> (r: Self)
        ensures
            r.search_dir == search_dir,
            r.filter.files && r.filter.dirs && !r.filter.links,
            !r.hardware_accelerate,
            r.case_sensitive,
            r.depth == 6,
            (r.search_type matches SearchType::MatchMiddle(k) && k@ == key@),
            r.skip_errors,
            r.max_finds == 100,
    {
        Self {
            search_dir,
            filter: PitouFileFilter::new(),
            hardware_accelerate: false,
            case_sensitive: true,
            depth: 6,
            search_type: SearchType::MatchMiddle(key),
            skip_errors: true,
            max_finds: 100,
        }
    }

    /// Splits the request into what each traversal task shares and the
    /// path the root task starts from.
    pub fn split(self) -> (r: (SearchVariables, PitouFilePath))
        ensures
            r.0.filter == self.filter,
            r.0.case_sensitive == self.case_sensitive,
            r.0.depth == self.depth,
            r.0.search_type == self.search_type,
            r.0.skip_errors == self.skip_errors,
            r.1.path@ == self.search_dir.path.path@,
    {
        let SearchOptions {
            search_dir,
            hardware_accelerate: _,
            filter,
            case_sensitive,
            depth,
            search_type,
            skip_errors,
            max_finds: _,
        } = self;
        (
            SearchVariables { filter, case_sensitive, depth, skip_errors, search_type },
            search_dir.path.clone(),
        )
    }
}

/// What every traversal task of one search shares: the filter, the
/// pattern, and the bounds.
pub struct SearchVariables {
    pub filter: PitouFileFilter,
    pub case_sensitive: bool,
    pub depth: u8,
    pub search_type: SearchType,
    pub skip_errors: bool,
}

impl SearchVariables {
    /// Whether a discovered entry belongs in the results: its kind is
    /// one the filter asks for, and its name satisfies the pattern.
    pub open spec fn include_spec(&self, file: &PitouFile) -> bool {
        self.filter.admits(*file) && self.search_type.matches_spec(
            crate::paths::spec_name(file.path.path@),
            self.case_sensitive,
        )
    }

    /// Decides whether `file` belongs in the results.
    pub fn includes(&self, file: &PitouFile) -> (r: bool)
        ensures
            r == self.include_spec(file),
    {
        ((file.is_file() && self.filter.include_files()) || (file.is_dir()
            && self.filter.include_dirs()) || (file.is_link() && self.filter.include_links()))
            && self.search_type.matches(file.name(), self.case_sensitive)
    }
}

} // verus!
