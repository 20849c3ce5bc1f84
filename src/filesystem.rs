//! Looking up a file among a few candidate places.

use vstd::prelude::*;
use crate::extract::names_view;
use crate::model::opt_view;
use crate::service::home_directory;

verus! {

/// The places `file_search` tries, in order: `./<filename>` when `pwd` is
/// set, then `<home>/<filename>` when `home` is set and the home directory
/// is known.
pub open spec fn search_paths_of(filename: Seq<char>, pwd: bool, home: Option<Seq<char>>) -> Seq<
    Seq<char>,
> {
    (if pwd {
        seq!["./"@ + filename]
    } else {
        Seq::empty()
    }) + match home {
        Some(h) => seq![h + "/"@ + filename],
        None => Seq::empty(),
    }
}

/// The places `file_search` tries, in order.
pub fn search_paths(filename: &str, pwd: bool, home: Option<String>) -> (r: Vec<String>)
    ensures
        names_view(r@) == search_paths_of(
            filename@,
            pwd,
            match home {
                Some(h) => Some(h@),
                None => None,
            },
        ),
{
    let mut paths: Vec<String> = Vec::new();
    if pwd {
        let mut p = "./".to_string();
        p.append(filename);
        paths.push(p);
    }
    let ghost first = names_view(paths@);
    match home {
        Some(h) => {
            let mut p = h;
            p.append("/");
            p.append(filename);
            paths.push(p);
        },
        None => {},
    }
    proof {
        assert(names_view(paths@) =~= search_paths_of(
            filename@,
            pwd,
            match home {
                Some(h) => Some(h@),
                None => None,
            },
        ));
    }
    paths
}

/// Relies on `fs_extra::file::read_to_string`: the text of the file at
/// `path`, or `None` when it cannot be read; what it finds depends on the disk.
#[verifier::external_body]
fn read_text(path: &str) -> (r: Option<String>) {
    fs_extra::file::read_to_string(path).ok()
}

pub open spec fn reads_view(reads: Seq<Option<String>>) -> Seq<Option<Seq<char>>> {
    reads.map_values(|o: Option<String>| opt_view(o))
}

/// The first text among the results of reading the search paths in order.
pub open spec fn first_text(reads: Seq<Option<Seq<char>>>) -> Option<Seq<char>>
    decreases reads.len(),
{
    if reads.len() == 0 {
        None
    } else if reads[0] is Some {
        reads[0]
    } else {
        first_text(reads.drop_first())
    }
}

/// The first text among `reads`, the results of reading the search paths in
/// order (`None` for a path that could not be read).
pub fn first_found(reads: &Vec<Option<String>>) -> (r: Option<String>)
    ensures
        opt_view(r) == first_text(reads_view(reads@)),
{
    let ghost all = reads_view(reads@);
    let mut i: usize = 0;
    assert(all.skip(0) =~= all);
    while i < reads.len()
        invariant
            i <= reads.len(),
            all == reads_view(reads@),
            first_text(all) == first_text(all.skip(i as int)),
        decreases reads.len() - i,
    {
        assert(all.skip(i as int).drop_first() =~= all.skip(i + 1));
        assert(all.skip(i as int)[0] == opt_view(reads@[i as int]));
        match &reads[i] {
            Some(text) => return Some(text.clone()),
            None => {},
        }
        i = i + 1;
    }
    assert(all.skip(i as int).len() == 0);
    None
}

/// The text of the first readable file among the search paths. The paths
/// are read in order until one can be read; `first_found` picks the result.
pub fn file_search(filename: &str, pwd: bool, home: bool) -> (r: Option<String>)
    ensures
        !pwd && !home ==> r is None,
{
    let home_dir = if home {
        home_directory()
    } else {
        None
    };
    let paths = search_paths(filename, pwd, home_dir);
    assert(names_view(paths@).len() == paths@.len());
    let mut reads: Vec<Option<String>> = Vec::new();
    let mut found = false;
    let mut i: usize = 0;
    while i < paths.len() && !found
        invariant
            i <= paths.len(),
            reads@.len() == i,
            !pwd && !home ==> paths@.len() == 0,
        decreases paths.len() - i,
    {
        let text = read_text(paths[i].as_str());
        found = text.is_some();
        reads.push(text);
        i = i + 1;
    }
    proof {
        if !pwd && !home {
            assert(reads_view(reads@).len() == 0);
        }
    }
    first_found(&reads)
}

} // verus!
