//! The static files of the web UI, and the script that they are bundled into.
use vstd::prelude::*;

use crate::text;
use crate::text::{lossy_text, texts};

verus! {

broadcast use vstd::string::group_string_axioms;

/// The static web assets: file contents by path.
pub struct Assets {
    files: Vec<(String, Vec<u8>)>,
}

/// The first file with a given path among those from `i` on.
pub open spec fn first_file(
    files: Seq<(Seq<char>, Seq<u8>)>,
    path: Seq<char>,
    i: int,
) -> Option<Seq<u8>>
    decreases files.len() - i,
{
    if i < 0 || i >= files.len() {
        None
    } else if files[i].0 == path {
        Some(files[i].1)
    } else {
        first_file(files, path, i + 1)
    }
}

/// The contents of a list of files.
pub open spec fn file_views(files: Seq<(String, Vec<u8>)>) -> Seq<(Seq<char>, Seq<u8>)> {
    files.map_values(|f: (String, Vec<u8>)| (f.0@, f.1@))
}

impl View for Assets {
    type V = Seq<(Seq<char>, Seq<u8>)>;

    closed spec fn view(&self) -> Seq<(Seq<char>, Seq<u8>)> {
        file_views(self.files@)
    }
}

impl Assets {
    /// The assets with the given files.
    pub fn new(files: Vec<(String, Vec<u8>)>) -> (r: Assets)
        ensures
            r@ == file_views(files@),
    {
        Assets { files }
    }

    /// The contents of the file at `path`.
    pub fn get(&self, path: &str) -> (r: Option<&Vec<u8>>)
        ensures
            match r {
                Some(data) => first_file(self@, path@, 0) == Some(data@),
                None => first_file(self@, path@, 0) is None,
            },
    {
        let ghost all = self@;
        let mut i: usize = 0;
        while i < self.files.len()
            invariant
                i <= self.files@.len(),
                all == file_views(self.files@),
                first_file(all, path@, 0) == first_file(all, path@, i as int),
                self@ == all,
            decreases self.files@.len() - i,
        {
            assert(all[i as int] == (self.files@[i as int].0@, self.files@[i as int].1@));
            if text::str_eq(self.files[i].0.as_str(), path) {
                return Some(&self.files[i].1);
            }
            i += 1;
        }
        None
    }
}

/// Order in which frontend JS files are concatenated into `/app.js`.
///
/// The list is in dependency order: later files may reference globals set by
/// earlier files. Vendored third-party files come first.
pub open spec fn js_bundle_paths() -> Seq<Seq<char>> {
    seq![
        "vendor/htmx.js"@,
        "js/api.js"@,
        "js/state.js"@,
        "js/components/table.js"@,
        "js/components/filters.js"@,
        "js/views/queue.js"@,
        "js/views/inbox.js"@,
        "js/views/repos.js"@,
        "js/views/workspaces.js"@,
        "js/main.js"@,
    ]
}

/// Order in which frontend JS files are concatenated into `/app.js`.
pub fn js_bundle() -> (r: Vec<String>)
    ensures
        texts(r@) == js_bundle_paths(),
        texts(r@) == seq![
            "vendor/htmx.js"@,
            "js/api.js"@,
            "js/state.js"@,
            "js/components/table.js"@,
            "js/components/filters.js"@,
            "js/views/queue.js"@,
            "js/views/inbox.js"@,
            "js/views/repos.js"@,
            "js/views/workspaces.js"@,
            "js/main.js"@,
        ],
{
    let mut paths: Vec<String> = Vec::new();
    paths.push("vendor/htmx.js".to_owned());
    paths.push("js/api.js".to_owned());
    paths.push("js/state.js".to_owned());
    paths.push("js/components/table.js".to_owned());
    paths.push("js/components/filters.js".to_owned());
    paths.push("js/views/queue.js".to_owned());
    paths.push("js/views/inbox.js".to_owned());
    paths.push("js/views/repos.js".to_owned());
    paths.push("js/views/workspaces.js".to_owned());
    paths.push("js/main.js".to_owned());
    assert(texts(paths@) =~= js_bundle_paths());
    paths
}

/// The texts of the modules at the given paths; those whose file is missing are
/// left out.
pub open spec fn modules(files: Seq<(Seq<char>, Seq<u8>)>, paths: Seq<Seq<char>>) -> Seq<Seq<char>>
    decreases paths.len(),
{
    if paths.len() == 0 {
        Seq::empty()
    } else {
        let before = modules(files, paths.drop_last());
        match first_file(files, paths.last(), 0) {
            Some(data) => before.push(lossy_text(data)),
            None => before,
        }
    }
}

/// Texts one after the other, each on lines of its own.
pub open spec fn bundled(texts: Seq<Seq<char>>) -> Seq<char>
    decreases texts.len(),
{
    if texts.len() == 0 {
        Seq::empty()
    } else {
        (bundled(texts.drop_last()) + texts.last()).push('\n')
    }
}

/// Joins the texts of modules into a single script.
pub fn bundle(modules: &Vec<String>) -> (r: String)
    ensures
        r@ == bundled(texts(modules@)),
{
    let ghost all = texts(modules@);
    let mut script = String::new();
    assert(script@ =~= bundled(all.take(0)));
    let mut i: usize = 0;
    while i < modules.len()
        invariant
            i <= modules@.len(),
            all == texts(modules@),
            script@ == bundled(all.take(i as int)),
        decreases modules@.len() - i,
    {
        proof {
            let next = all.take(i + 1);
            assert(next.drop_last() =~= all.take(i as int));
            assert(next.last() == modules@[i as int]@);
        }
        script.append(modules[i].as_str());
        script.push('\n');
        i += 1;
    }
    assert(all.take(all.len() as int) =~= all);
    script
}

/// Concatenate the frontend JS modules into a single script. Missing files are
/// skipped so the bundle works while modules are still being introduced.
pub fn app_js(assets: &Assets) -> (r: String)
    ensures
        r@ == bundled(modules(assets@, js_bundle_paths())),
{
    let paths = js_bundle();
    let ghost all = texts(paths@);
    let mut found: Vec<String> = Vec::new();
    assert(texts(found@) =~= modules(assets@, all.take(0)));
    let mut i: usize = 0;
    while i < paths.len()
        invariant
            i <= paths@.len(),
            all == texts(paths@),
            texts(found@) == modules(assets@, all.take(i as int)),
        decreases paths@.len() - i,
    {
        proof {
            let next = all.take(i + 1);
            assert(next.drop_last() =~= all.take(i as int));
            assert(next.last() == paths@[i as int]@);
        }
        let ghost before = found@;
        if let Some(data) = assets.get(paths[i].as_str()) {
            let module = text::from_utf8_lossy(data.as_slice());
            found.push(module);
            assert(texts(found@) =~= texts(before).push(module@));
        }
        i += 1;
    }
    assert(all.take(all.len() as int) =~= all);
    bundle(&found)
}

// ---- serving --------------------------------------------------------------

/// The media type that `mime_guess` gives for a path.
pub uninterp spec fn guessed_type(path: Seq<char>) -> Seq<char>;

/// `mime_guess::from_path`, read with `first_or_octet_stream`: a function of
/// the path alone, by its extension.
#[verifier::external_body]
fn guess_type(path: &str) -> (r: String)
    ensures
        r@ == guessed_type(path@),
{
    mime_guess::from_path(path).first_or_octet_stream().to_string()
}

/// The file that a URL path asks for: what follows its leading slashes, or the
/// index page.
pub open spec fn served_file(url_path: Seq<char>) -> Seq<char> {
    let path = text::without_leading(url_path, '/');
    if path.len() == 0 {
        "index.html"@
    } else {
        path
    }
}

/// The file that a URL path asks for.
pub fn static_path<'a>(url_path: &'a str) -> (r: &'a str)
    ensures
        r@ == served_file(url_path@),
        (forall|i: int| 0 <= i < url_path@.len() ==> #[trigger] url_path@[i] == '/') <==> (r@
            == "index.html"@ && text::without_leading(url_path@, '/').len() == 0),
{
    let path = text::trim_leading(url_path, '/');
    proof {
        text::law_leading_characters_go(url_path@, '/');
        if forall|i: int| 0 <= i < url_path@.len() ==> #[trigger] url_path@[i] == '/' {
            if path@.len() > 0 {
                assert(path@[0] == url_path@[url_path@.len() - path@.len()]);
            }
        }
    }
    if path.unicode_len() == 0 {
        "index.html"
    } else {
        path
    }
}

/// The media type and the contents of the file at `path`; absent when there is
/// no such file, which is answered with a 404.
pub fn serve_embedded<'a>(assets: &'a Assets, path: &str) -> (r: Option<(String, &'a Vec<u8>)>)
    ensures
        match r {
            Some((mime, data)) => first_file(assets@, path@, 0) == Some(data@) && mime@
                == guessed_type(path@),
            None => first_file(assets@, path@, 0) is None,
        },
{
    match assets.get(path) {
        Some(data) => Some((guess_type(path), data)),
        None => None,
    }
}

// ---- laws -----------------------------------------------------------------

/// The bundle keeps the order of its modules: that of a list begins with that of
/// its first part, and goes on with that of the rest.
pub proof fn law_bundle_keeps_order(earlier: Seq<Seq<char>>, later: Seq<Seq<char>>)
    ensures
        bundled(earlier + later) == bundled(earlier) + bundled(later),
    decreases later.len(),
{
    if later.len() == 0 {
        assert(earlier + later =~= earlier);
        assert(bundled(earlier) + Seq::<char>::empty() =~= bundled(earlier));
    } else {
        let all = earlier + later;
        assert(all.drop_last() =~= earlier + later.drop_last());
        assert(all.last() == later.last());
        law_bundle_keeps_order(earlier, later.drop_last());
        assert(bundled(all) =~= bundled(earlier) + bundled(later));
    }
}

/// A module whose file is missing leaves no trace in the bundle.
pub proof fn law_missing_module_is_skipped(
    files: Seq<(Seq<char>, Seq<u8>)>,
    paths: Seq<Seq<char>>,
    missing: Seq<char>,
)
    requires
        first_file(files, missing, 0) is None,
    ensures
        modules(files, paths.push(missing)) == modules(files, paths),
{
    assert(paths.push(missing).drop_last() =~= paths);
}

/// A file is found by its path: the first of that path, and none only when there
/// is none.
pub proof fn law_file_is_found_by_path(files: Seq<(Seq<char>, Seq<u8>)>, path: Seq<char>)
    ensures
        match first_file(files, path, 0) {
            Some(data) => exists|i: int|
                0 <= i < files.len() && (#[trigger] files[i]).0 == path && files[i].1 == data && (
                forall|k: int| 0 <= k < i ==> (#[trigger] files[k]).0 != path),
            None => forall|i: int| 0 <= i < files.len() ==> (#[trigger] files[i]).0 != path,
        },
{
    lemma_first_file(files, path, 0);
}

/// The first file of a path from a position on.
proof fn lemma_first_file(files: Seq<(Seq<char>, Seq<u8>)>, path: Seq<char>, from: int)
    requires
        0 <= from,
    ensures
        match first_file(files, path, from) {
            Some(data) => exists|i: int|
                from <= i < files.len() && (#[trigger] files[i]).0 == path && files[i].1 == data && (
                forall|k: int| from <= k < i ==> (#[trigger] files[k]).0 != path),
            None => forall|i: int| from <= i < files.len() ==> (#[trigger] files[i]).0 != path,
        },
    decreases files.len() - from,
{
    if from < files.len() {
        if files[from].0 != path {
            lemma_first_file(files, path, from + 1);
            if first_file(files, path, from + 1) is Some {
                let data = first_file(files, path, from + 1)->0;
                let i = choose|i: int|
                    from + 1 <= i < files.len() && (#[trigger] files[i]).0 == path && files[i].1
                        == data && (forall|k: int|
                        from + 1 <= k < i ==> (#[trigger] files[k]).0 != path);
                assert(files[i].0 == path);
            }
        } else {
            assert(files[from].0 == path);
        }
    }
}

/// Each module of the bundle stands on lines of its own, and the bundle of
/// nothing is empty.
pub proof fn law_module_ends_its_line(module: Seq<char>)
    ensures
        bundled(seq![module]) == module + seq!['\n'],
        bundled(Seq::empty()).len() == 0,
{
    let one = seq![module];
    let none = Seq::<Seq<char>>::empty();
    assert(one.drop_last() =~= none);
    assert(bundled(none) =~= Seq::empty());
    assert(one.last() == module);
    assert(bundled(one) =~= module + seq!['\n']);
}

/// A module whose file is there is part of the bundle, as its text.
pub proof fn law_present_module_is_bundled(
    files: Seq<(Seq<char>, Seq<u8>)>,
    paths: Seq<Seq<char>>,
    path: Seq<char>,
)
    requires
        first_file(files, path, 0) is Some,
    ensures
        modules(files, paths.push(path)) == modules(files, paths).push(
            lossy_text(first_file(files, path, 0)->0),
        ),
{
    assert(paths.push(path).drop_last() =~= paths);
}

/// A URL path asks for the file of that name; the root asks for the index page.
pub proof fn law_paths_ask_for_their_files(path: Seq<char>)
    requires
        path.len() > 0,
        path[0] != '/',
    ensures
        served_file(seq!['/'] + path) == path,
        served_file(path) == path,
        served_file(seq!['/']) == "index.html"@,
        served_file(Seq::empty()) == "index.html"@,
{
    let url = seq!['/'] + path;
    assert(url.skip(1) =~= path);
    assert(text::without_leading(path, '/') == path);
    assert(text::without_leading(url, '/') == path);
    assert(seq!['/'].skip(1) =~= Seq::empty());
    reveal_with_fuel(text::without_leading, 2);
}

} // verus!
