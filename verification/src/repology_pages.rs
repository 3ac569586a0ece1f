//! The package row of the paged query tool, which also carries the
//! repository's own page: how one row reads in its table, and the
//! same case-insensitive repository filter the plain query applies.

use vstd::prelude::*;

use crate::repology::contains_chars;
use crate::repology::has_sub_chars;
use crate::repology::lower_of;
use crate::repology::to_lowercase;
use crate::text::chars_of;

verus! {

/// One row a package index returns, repository page included.
#[derive(Debug)]
pub struct Package {
    pub repo: String,
    pub version: String,
    pub status: Option<String>,
    pub repopage: Option<String>,
}

/// Mathematical image of a row.
pub struct PackageModel {
    pub repo: Seq<char>,
    pub version: Seq<char>,
    pub status: Option<Seq<char>>,
    pub repopage: Option<Seq<char>>,
}

impl View for Package {
    type V = PackageModel;

    open spec fn view(&self) -> PackageModel {
        PackageModel {
            repo: self.repo@,
            version: self.version@,
            status: match self.status {
                Option::Some(s) => Option::Some(s@),
                Option::None => Option::None,
            },
            repopage: match self.repopage {
                Option::Some(s) => Option::Some(s@),
                Option::None => Option::None,
            },
        }
    }
}

impl Package {
    /// The four cells of this row's table line: repository, version,
    /// and the status and page with "N/A" standing in for an absent
    /// value.
    pub fn table_row(&self) -> (r: (String, String, String, String))
        ensures
            r.0@ == self.repo@,
            r.1@ == self.version@,
            match self@.status {
                Option::Some(s) => r.2@ == s,
                Option::None => r.2@ == "N/A"@,
            },
            match self@.repopage {
                Option::Some(s) => r.3@ == s,
                Option::None => r.3@ == "N/A"@,
            },
    {
        let status = match &self.status {
            Option::Some(s) => s.clone(),
            Option::None => String::from_str("N/A"),
        };
        let page = match &self.repopage {
            Option::Some(s) => s.clone(),
            Option::None => String::from_str("N/A"),
        };
        (self.repo.clone(), self.version.clone(), status, page)
    }
}

/// The mathematical image of a row of paged packages.
pub open spec fn pages_model(s: Seq<Package>) -> Seq<PackageModel> {
    s.map_values(|p: Package| p@)
}

/// A row survives the filter `f` when its repository name, case
/// folded, contains the filter, case folded.
pub open spec fn page_matches(p: PackageModel, f: Seq<char>) -> bool {
    has_sub_chars(lower_of(p.repo), lower_of(f))
}

/// The rows that survive the filter `f`, in their original order.
pub open spec fn filter_pages_model(ps: Seq<PackageModel>, f: Seq<char>) -> Seq<PackageModel>
    decreases ps.len(),
{
    if ps.len() == 0 {
        Seq::empty()
    } else if page_matches(ps.last(), f) {
        filter_pages_model(ps.drop_last(), f).push(ps.last())
    } else {
        filter_pages_model(ps.drop_last(), f)
    }
}

/// Clones one paged row.
fn clone_page(p: &Package) -> (r: Package)
    ensures
        r == *p,
{
    Package {
        repo: p.repo.clone(),
        version: p.version.clone(),
        status: match &p.status {
            Option::Some(s) => Option::Some(s.clone()),
            Option::None => Option::None,
        },
        repopage: match &p.repopage {
            Option::Some(s) => Option::Some(s.clone()),
            Option::None => Option::None,
        },
    }
}

/// Applies the repository filter of a query to the returned rows:
/// with no filter every row survives; with one, exactly the rows
/// whose repository name contains it, compared case-insensitively,
/// survive, in their original order.
#[verifier::loop_isolation(false)]
pub fn filter_pages(packages: &Vec<Package>, distro: &Option<String>) -> (out: Vec<Package>)
    ensures
        match *distro {
            Option::Some(f) => pages_model(out@) == filter_pages_model(
                pages_model(packages@),
                f@,
            ),
            Option::None => pages_model(out@) == pages_model(packages@),
        },
{
    let ghost m = pages_model(packages@);
    match distro {
        Option::None => {
            let mut out: Vec<Package> = Vec::new();
            let mut i: usize = 0;
            while i < packages.len()
                invariant
                    i <= packages@.len(),
                    pages_model(out@) =~= m.take(i as int),
                decreases packages@.len() - i,
            {
                out.push(clone_page(&packages[i]));
                proof {
                    assert(pages_model(out@) =~= m.take(i as int + 1));
                }
                i += 1;
            }
            proof {
                assert(m.take(packages@.len() as int) =~= m);
            }
            out
        },
        Option::Some(d) => {
            let folded = to_lowercase(d.as_str());
            let fchars = chars_of(folded.as_str());
            let mut out: Vec<Package> = Vec::new();
            let mut i: usize = 0;
            while i < packages.len()
                invariant
                    i <= packages@.len(),
                    fchars@ == lower_of(d@),
                    pages_model(out@) == filter_pages_model(m.take(i as int), d@),
                decreases packages@.len() - i,
            {
                proof {
                    assert(m.take(i as int + 1).drop_last() =~= m.take(i as int));
                    assert(m.take(i as int + 1).last() == m[i as int]);
                }
                let repo_folded = to_lowercase(packages[i].repo.as_str());
                let rchars = chars_of(repo_folded.as_str());
                if contains_chars(&rchars, &fchars) {
                    out.push(clone_page(&packages[i]));
                    proof {
                        assert(pages_model(out@) =~= filter_pages_model(
                            m.take(i as int + 1),
                            d@,
                        ));
                    }
                }
                i += 1;
            }
            proof {
                assert(m.take(packages@.len() as int) =~= m);
            }
            out
        },
    }
}

} // verus!
