//! Package-query logic: the data a package index returns for one
//! project, and the case-insensitive repository filter applied to it.
//!
//! Fetching and rendering stay with the caller; what is decided about
//! the returned rows — which survive a `--distro` filter, what a
//! missing status reads as, which endpoint a query names — is verified
//! here.  Case folding is the standard library's, behind one trusted
//! wrapper.

use vstd::prelude::*;

use crate::text::chars_of;

verus! {

/// One row a package index returns: the repository that carries the
/// package, the version it carries, and its optional status.
#[derive(Debug)]
pub struct Package {
    pub repo: String,
    pub version: String,
    pub status: Option<String>,
}

/// Mathematical image of a package row.
pub struct PackageModel {
    pub repo: Seq<char>,
    pub version: Seq<char>,
    pub status: Option<Seq<char>>,
}

impl View for Package {
    type V = PackageModel;

    open spec fn view(&self) -> PackageModel {
        PackageModel {
            repo: self.repo@,
            version: self.version@,
            status: match self.status {
                Option::Some(s) => Option::Some(s@),
                Option::None => Option::None,
            },
        }
    }
}

/// One query as the caller states it: the project to look up, an
/// optional repository filter, and the network timeout in seconds.
#[derive(Debug)]
pub struct QueryArgs {
    pub package_name: String,
    pub distro: Option<String>,
    pub timeout: u64,
}

impl QueryArgs {
    /// The endpoint this query names: the project API path with the
    /// package name appended.
    pub fn request_url(&self) -> (r: String)
        ensures
            r@ == "https://repology.org/api/v1/project/"@ + self.package_name@,
    {
        String::from_str("https://repology.org/api/v1/project/").concat(self.package_name.as_str())
    }
}

/// The mathematical image of a row of packages.
pub open spec fn packages_model(s: Seq<Package>) -> Seq<PackageModel> {
    s.map_values(|p: Package| p@)
}

/// `needle` occurs contiguously somewhere in `hay`.
pub open spec fn has_sub_chars(hay: Seq<char>, needle: Seq<char>) -> bool {
    exists|k: int|
        0 <= k && k + needle.len() <= hay.len() && #[trigger] hay.subrange(
            k,
            k + needle.len() as int,
        ) == needle
}

/// What the standard library's case folding makes of a string: a
/// function of the characters alone.
pub uninterp spec fn lower_of(s: Seq<char>) -> Seq<char>;

/// Relies on str::to_lowercase: the result depends on the characters
/// alone.
#[verifier::external_body]
pub(crate) fn to_lowercase(s: &str) -> (r: String)
    ensures
        r@ == lower_of(s@),
{
    s.to_lowercase()
}

/// Character-string search: whether `needle` occurs contiguously in
/// `hay`.
#[verifier::loop_isolation(false)]
pub fn contains_chars(hay: &Vec<char>, needle: &Vec<char>) -> (r: bool)
    ensures
        r == has_sub_chars(hay@, needle@),
{
    let n = needle.len();
    let h = hay.len();
    if n == 0 {
        proof {
            assert(hay@.subrange(0, 0 + needle@.len() as int) =~= needle@);
        }
        return true;
    }
    if n > h {
        return false;
    }
    let mut k: usize = 0;
    while k <= h - n
        invariant
            0 < n <= h,
            k <= h - n + 1,
            forall|k2: int|
                0 <= k2 < k ==> #[trigger] hay@.subrange(k2, k2 + needle@.len() as int)
                    != needle@,
        decreases h - n + 1 - k,
    {
        let mut j: usize = 0;
        while j < n && hay[k + j] == needle[j]
            invariant
                j <= n,
                k + n <= h,
                forall|j2: int| 0 <= j2 < j ==> hay@[k + j2] == needle@[j2],
            decreases n - j,
        {
            j += 1;
        }
        if j == n {
            proof {
                assert(hay@.subrange(k as int, k as int + n as int) =~= needle@);
            }
            return true;
        }
        proof {
            assert(hay@.subrange(k as int, k as int + n as int)[j as int] == hay@[k + j]);
            assert(hay@.subrange(k as int, k as int + n as int) != needle@);
        }
        k += 1;
    }
    proof {
        assert forall|k2: int|
            0 <= k2 && k2 + needle@.len() <= hay@.len() implies #[trigger] hay@.subrange(
            k2,
            k2 + needle@.len() as int,
        ) != needle@ by {
            assert(k2 < k);
        }
    }
    false
}

/// A package survives the filter `f` when its repository name, case
/// folded, contains the filter, case folded.
pub open spec fn repo_matches(p: PackageModel, f: Seq<char>) -> bool {
    has_sub_chars(lower_of(p.repo), lower_of(f))
}

/// The packages that survive the filter `f`, in their original order.
pub open spec fn filter_model(ps: Seq<PackageModel>, f: Seq<char>) -> Seq<PackageModel>
    decreases ps.len(),
{
    if ps.len() == 0 {
        Seq::empty()
    } else if repo_matches(ps.last(), f) {
        filter_model(ps.drop_last(), f).push(ps.last())
    } else {
        filter_model(ps.drop_last(), f)
    }
}

/// Clones one package row.
fn clone_package(p: &Package) -> (r: Package)
    ensures
        r == *p,
{
    Package {
        repo: p.repo.clone(),
        version: p.version.clone(),
        status: match &p.status {
            Option::Some(s) => Option::Some(s.clone()),
            Option::None => Option::None,
        },
    }
}

/// Applies the repository filter of a query to the returned rows: with
/// no filter every row survives; with one, exactly the rows whose
/// repository name contains it, compared case-insensitively, survive,
/// in their original order.
#[verifier::loop_isolation(false)]
pub fn filter_packages(packages: &Vec<Package>, distro: &Option<String>) -> (out: Vec<Package>)
    ensures
        match *distro {
            Option::Some(f) => packages_model(out@) == filter_model(
                packages_model(packages@),
                f@,
            ),
            Option::None => packages_model(out@) == packages_model(packages@),
        },
{
    let ghost m = packages_model(packages@);
    match distro {
        Option::None => {
            let mut out: Vec<Package> = Vec::new();
            let mut i: usize = 0;
            while i < packages.len()
                invariant
                    i <= packages@.len(),
                    packages_model(out@) =~= m.take(i as int),
                decreases packages@.len() - i,
            {
                out.push(clone_package(&packages[i]));
                proof {
                    assert(packages_model(out@) =~= m.take(i as int + 1));
                }
                i += 1;
            }
            proof {
                assert(m.take(packages@.len() as int) =~= m);
            }
            out
        },
        Option::Some(d) => {
            let folded = to_lowercase(d.as_str());
            let fchars = chars_of(folded.as_str());
            let mut out: Vec<Package> = Vec::new();
            let mut i: usize = 0;
            while i < packages.len()
                invariant
                    i <= packages@.len(),
                    fchars@ == lower_of(d@),
                    packages_model(out@) == filter_model(m.take(i as int), d@),
                decreases packages@.len() - i,
            {
                proof {
                    assert(m.take(i as int + 1).drop_last() =~= m.take(i as int));
                    assert(m.take(i as int + 1).last() == m[i as int]);
                }
                let repo_folded = to_lowercase(packages[i].repo.as_str());
                let rchars = chars_of(repo_folded.as_str());
                if contains_chars(&rchars, &fchars) {
                    out.push(clone_package(&packages[i]));
                    proof {
                        assert(packages_model(out@) =~= filter_model(m.take(i as int + 1), d@));
                    }
                }
                i += 1;
            }
            proof {
                assert(m.take(packages@.len() as int) =~= m);
            }
            out
        },
    }
}

/// How one row's status reads in a table: the status itself, or "N/A"
/// where the index reported none.
pub fn status_display(status: &Option<String>) -> (r: String)
    ensures
        match *status {
            Option::Some(s) => r@ == s@,
            Option::None => r@ == "N/A"@,
        },
{
    match status {
        Option::Some(s) => s.clone(),
        Option::None => String::from_str("N/A"),
    }
}

} // verus!
