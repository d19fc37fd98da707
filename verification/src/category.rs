//! Categories: the Markdown files found under a site's root, grouped by the
//! directory that holds them.

use vstd::prelude::*;
use vstd::string::StrSliceExecFns;
use crate::markdown::option_view;
use crate::text::ends_with;

verus! {

/// The name of the directory that holds static assets and no posts.
pub open spec fn assets_dir() -> Seq<char> {
    "assets"@
}

/// Whether two strings hold the same characters.
pub fn same(a: &str, b: &str) -> (r: bool)
    ensures
        r == (a@ == b@),
{
    if a.unicode_len() != b.unicode_len() {
        return false;
    }
    let r = ends_with(a, b);
    assert(a@.subrange(0, a@.len() as int) =~= a@);
    r
}

/// Whether a directory entry of this name is the assets directory, which a
/// walk over the site's root leaves out with all that is in it.
pub fn is_assets_dir(name: &str) -> (r: bool)
    ensures
        r == (name@ == assets_dir()),
{
    same(name, "assets")
}

/// A file found under the site's root: the directory that holds it, as a
/// path from the root, its extension, and its own path.
#[derive(Debug)]
pub struct SourceFile {
    pub dir: String,
    pub extension: Option<String>,
    pub path: String,
}

/// A source file over sequences of characters.
pub struct SourceFileView {
    pub dir: Seq<char>,
    pub extension: Option<Seq<char>>,
    pub path: Seq<char>,
}

impl View for SourceFile {
    type V = SourceFileView;

    open spec fn view(&self) -> SourceFileView {
        SourceFileView {
            dir: self.dir@,
            extension: option_view(self.extension),
            path: self.path@,
        }
    }
}

impl DeepView for SourceFile {
    type V = SourceFileView;

    open spec fn deep_view(&self) -> SourceFileView {
        self@
    }
}

/// The files of one category, in the order in which they were found.
#[derive(Debug)]
pub struct CategoryFiles {
    pub slug: String,
    pub paths: Vec<String>,
}

/// The files of a category over sequences of characters.
pub struct CategoryFilesView {
    pub slug: Seq<char>,
    pub paths: Seq<Seq<char>>,
}

impl View for CategoryFiles {
    type V = CategoryFilesView;

    open spec fn view(&self) -> CategoryFilesView {
        CategoryFilesView { slug: self.slug@, paths: self.paths.deep_view() }
    }
}

impl DeepView for CategoryFiles {
    type V = CategoryFilesView;

    open spec fn deep_view(&self) -> CategoryFilesView {
        self@
    }
}

/// Whether the file is a post: its extension is `md`.
pub open spec fn is_markdown(file: SourceFileView) -> bool {
    file.extension == Some("md"@)
}

/// The position of the category with this slug, or the number of
/// categories where there is none.
pub open spec fn slot(groups: Seq<CategoryFilesView>, slug: Seq<char>) -> int
    decreases groups.len(),
{
    if groups.len() == 0 {
        0
    } else if groups[0].slug == slug {
        0
    } else {
        1 + slot(groups.drop_first(), slug)
    }
}

/// The categories with one more file: a post joins the category of its
/// directory, behind the posts already there, or opens a new category
/// behind the others; a file that is no post changes nothing.
pub open spec fn with_file(
    groups: Seq<CategoryFilesView>,
    file: SourceFileView,
) -> Seq<CategoryFilesView> {
    if !is_markdown(file) {
        groups
    } else {
        let at = slot(groups, file.dir);
        if at < groups.len() {
            groups.update(
                at,
                CategoryFilesView { slug: file.dir, paths: groups[at].paths.push(file.path) },
            )
        } else {
            groups.push(CategoryFilesView { slug: file.dir, paths: seq![file.path] })
        }
    }
}

/// The categories of the first `count` files.
pub open spec fn categories_of(files: Seq<SourceFileView>, count: int) -> Seq<CategoryFilesView>
    decreases count,
{
    if count <= 0 {
        Seq::empty()
    } else {
        with_file(categories_of(files, count - 1), files[count - 1])
    }
}

/// Whether no two categories share a slug.
pub open spec fn distinct_slugs(groups: Seq<CategoryFilesView>) -> bool {
    forall|i: int, j: int|
        0 <= i < j < groups.len() ==> (#[trigger] groups[i]).slug != (#[trigger] groups[j]).slug
}

/// `slot` finds the first category with the slug, if there is one.
pub proof fn lemma_slot(groups: Seq<CategoryFilesView>, slug: Seq<char>)
    ensures
        0 <= slot(groups, slug) <= groups.len(),
        slot(groups, slug) < groups.len() ==> groups[slot(groups, slug)].slug == slug,
        forall|i: int| 0 <= i < slot(groups, slug) ==> (#[trigger] groups[i]).slug != slug,
    decreases groups.len(),
{
    if groups.len() > 0 && groups[0].slug != slug {
        let rest = groups.drop_first();
        lemma_slot(rest, slug);
        assert forall|i: int| 0 <= i < slot(groups, slug) implies (#[trigger] groups[i]).slug
            != slug by {
            if i > 0 {
                assert(groups[i] == rest[i - 1]);
            }
        }
    }
}

/// Every category has another slug than the others, and holds a post.
pub proof fn lemma_categories_distinct(files: Seq<SourceFileView>, count: int)
    requires
        count <= files.len(),
    ensures
        distinct_slugs(categories_of(files, count)),
        forall|i: int|
            0 <= i < categories_of(files, count).len() ==> (#[trigger] categories_of(
                files,
                count,
            )[i]).paths.len() > 0,
    decreases count,
{
    if count > 0 {
        lemma_categories_distinct(files, count - 1);
        let before = categories_of(files, count - 1);
        lemma_slot(before, files[count - 1].dir);
    }
}

/// The position of the category with this slug.
fn find_slot(groups: &Vec<CategoryFiles>, slug: &str) -> (at: usize)
    ensures
        at == slot(groups.deep_view(), slug@),
        at <= groups.len(),
{
    let mut at: usize = 0;
    let ghost all = groups.deep_view();
    assert(all.subrange(0, all.len() as int) =~= all);
    while at < groups.len()
        invariant
            at <= groups.len(),
            all == groups.deep_view(),
            slot(all, slug@) == at + slot(all.subrange(at as int, all.len() as int), slug@),
        decreases groups.len() - at,
    {
        assert(all[at as int] == groups[at as int]@);
        if same(groups[at].slug.as_str(), slug) {
            return at;
        }
        assert(all.subrange(at as int, all.len() as int).drop_first() =~= all.subrange(
            at + 1,
            all.len() as int,
        ));
        at += 1;
    }
    at
}

/// Whether the file is a post.
fn markdown_file(file: &SourceFile) -> (r: bool)
    ensures
        r == is_markdown(file@),
{
    match &file.extension {
        Some(extension) => same(extension.as_str(), "md"),
        None => false,
    }
}

/// Find all post categories among the files under a root.
///
/// The categories stand in the order in which their first post was found,
/// each with its posts in the order in which they were found.
pub fn find_categories(files: &Vec<SourceFile>) -> (groups: Vec<CategoryFiles>)
    ensures
        groups.deep_view() == categories_of(files.deep_view(), files.len() as int),
{
    let mut groups: Vec<CategoryFiles> = Vec::new();
    let ghost all = files.deep_view();
    let mut i: usize = 0;
    assert(groups.deep_view() =~= Seq::<CategoryFilesView>::empty());
    while i < files.len()
        invariant
            i <= files.len(),
            all == files.deep_view(),
            groups.deep_view() == categories_of(all, i as int),
        decreases files.len() - i,
    {
        let file = &files[i];
        assert(all[i as int] == file@);
        let ghost before = groups.deep_view();
        if markdown_file(file) {
            let at = find_slot(&groups, file.dir.as_str());
            if at < groups.len() {
                let mut group = groups.remove(at);
                let ghost paths = group.paths.deep_view();
                assert(before[at as int] == group@);
                group.paths.push(file.path.clone());
                assert(group.paths.deep_view() =~= paths.push(file.path@));
                proof {
                    lemma_slot(before, file.dir@);
                }
                groups.insert(at, group);
                assert(groups.deep_view() =~= with_file(before, file@));
            } else {
                let mut paths: Vec<String> = Vec::new();
                paths.push(file.path.clone());
                assert(paths.deep_view() =~= seq![file.path@]);
                groups.push(CategoryFiles { slug: file.dir.clone(), paths });
                assert(groups.deep_view() =~= with_file(before, file@));
            }
        }
        i += 1;
    }
    groups
}

} // verus!
