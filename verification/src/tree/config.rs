//! Analysis configuration: path patterns to include or exclude.
//!
//! The two lists are accepted and carried as extension points; the build
//! and aggregation passes do not consult them yet.

use vstd::prelude::*;
use crate::utils::into_string;

verus! {

/// Configuration of one analysis session.
#[derive(Debug, Clone, Default, PartialEq)]
pub struct ProjectConfig {
    /// Path patterns the analysis should cover.
    pub includes: Vec<String>,
    /// Path patterns the analysis should leave out.
    pub excludes: Vec<String>,
}

impl ProjectConfig {
    /// Creates a configuration with both lists empty.
    pub fn new() -> (r: Self)
        ensures
            r.includes@.len() == 0,
            r.excludes@.len() == 0,
    {
        ProjectConfig { includes: Vec::new(), excludes: Vec::new() }
    }

    /// Appends one pattern to the covered paths.
    pub fn add_include<S: Into<String>>(self, path: S) -> (r: Self)
        ensures
            r.includes@.len() == self.includes@.len() + 1,
            r.includes@.drop_last() == self.includes@,
            r.excludes@ == self.excludes@,
    {
        let mut this = self;
        this.includes.push(into_string(path));
        this
    }

    /// Appends each given pattern, in order, to the covered paths.
    pub fn add_includes<S: Into<String>>(self, paths: Vec<S>) -> (r: Self)
        ensures
            r.includes@.len() == self.includes@.len() + paths@.len(),
            self.includes@.is_prefix_of(r.includes@),
            r.excludes@ == self.excludes@,
    {
        let mut this = self;
        let mut paths = paths;
        let ghost n: int = paths@.len() as int;
        while paths.len() > 0
            invariant
                this.includes@.len() + paths@.len() == self.includes@.len() + n,
                self.includes@.is_prefix_of(this.includes@),
                this.excludes@ == self.excludes@,
            decreases paths@.len(),
        {
            let p = paths.remove(0);
            this.includes.push(into_string(p));
        }
        this
    }

    /// Appends one pattern to the left-out paths.
    pub fn add_exclude<S: Into<String>>(self, path: S) -> (r: Self)
        ensures
            r.excludes@.len() == self.excludes@.len() + 1,
            r.excludes@.drop_last() == self.excludes@,
            r.includes@ == self.includes@,
    {
        let mut this = self;
        this.excludes.push(into_string(path));
        this
    }

    /// Appends each given pattern, in order, to the left-out paths.
    pub fn add_excludes<S: Into<String>>(self, paths: Vec<S>) -> (r: Self)
        ensures
            r.excludes@.len() == self.excludes@.len() + paths@.len(),
            self.excludes@.is_prefix_of(r.excludes@),
            r.includes@ == self.includes@,
    {
        let mut this = self;
        let mut paths = paths;
        let ghost n: int = paths@.len() as int;
        while paths.len() > 0
            invariant
                this.excludes@.len() + paths@.len() == self.excludes@.len() + n,
                self.excludes@.is_prefix_of(this.excludes@),
                this.includes@ == self.includes@,
            decreases paths@.len(),
        {
            let p = paths.remove(0);
            this.excludes.push(into_string(p));
        }
        this
    }

    /// Empties the list of covered paths.
    pub fn clear_include(self) -> (r: Self)
        ensures
            r.includes@.len() == 0,
            r.excludes@ == self.excludes@,
    {
        let mut this = self;
        this.includes.clear();
        this
    }

    /// Empties the list of left-out paths.
    pub fn clear_exclude(self) -> (r: Self)
        ensures
            r.excludes@.len() == 0,
            r.includes@ == self.includes@,
    {
        let mut this = self;
        this.excludes.clear();
        this
    }
}

} // verus!
