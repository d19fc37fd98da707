//! The site: its configuration, and the plan of what a build writes where.

use vstd::prelude::*;
use vstd::string::StringExecFns;
use crate::feed::{feed, feed_of, FeedError};
use crate::markdown::{
    layout_of,
    option_view,
};
use crate::order::{descending, newest_first, published_at, sort_newest_first};
use crate::paginate::{is_page, lemma_pages_cover, page_count, page_end, page_start, paginate};
use crate::highlight::{CompileError, CompileErrorView};
use crate::parser::{markdown_tokens, rendered_html};
use crate::post::{assembled, compile_post, posts_of, FrontMatter, Post};
use crate::text::{decimal, join, joined, push_decimal, replace_char, replaced};

verus! {

/// A link that the site shows beside its posts.
#[derive(Debug)]
pub struct Link {
    pub url: String,
    pub name: String,
}

/// The configuration of a site.
#[derive(Debug)]
pub struct Config {
    /// Site root to search for posts.
    pub root: String,
    /// Name/title of the site.
    pub name: String,
    /// Canonical URL of the site.
    pub url: String,
    /// A brief description of the site.
    pub desc: String,
    /// Primary image for the site.
    pub image: String,
    /// External links to include.
    pub links: Vec<Link>,
    /// All published datetimes will be assumed to have this UTC offset, in
    /// minutes.
    pub timezone: i32,
    /// How many posts to display per page.
    pub per_page: usize,
}

/// A site to build.
#[derive(Debug)]
pub struct Port {
    pub config: Config,
}

/// A category: the posts of one directory, newest first.
#[derive(Debug)]
pub struct Category {
    pub slug: String,
    pub posts: Vec<Post>,
}

/// How many posts a feed holds at most.
pub const FEED_LIMIT: usize = 20;

/// Whether a post is published: whether it is no draft.
pub open spec fn is_published() -> spec_fn(Post) -> bool {
    |post: Post| !post.meta.draft
}

/// The posts that are no drafts, in their order.
pub open spec fn published_of(posts: Seq<Post>) -> Seq<Post> {
    posts.filter(is_published())
}

/// The first `limit` of the posts, or all of them where there are fewer.
pub open spec fn head_of(posts: Seq<Post>, limit: int) -> Seq<Post> {
    if posts.len() <= limit {
        posts
    } else {
        posts.subrange(0, limit)
    }
}

/// The posts of a feed: the first twenty that are no drafts.
pub open spec fn feed_posts_of(posts: Seq<Post>) -> Seq<Post> {
    head_of(published_of(posts), 20)
}

/// No draft is published, and every published post is one of the posts.
pub proof fn lemma_published(posts: Seq<Post>)
    ensures
        published_of(posts).len() <= posts.len(),
        forall|i: int|
            0 <= i < published_of(posts).len() ==> !(#[trigger] published_of(
                posts,
            )[i]).meta.draft && posts.contains(published_of(posts)[i]),
{
    let live = published_of(posts);
    posts.lemma_filter_len(is_published());
    assert forall|i: int| 0 <= i < live.len() implies !(#[trigger] live[i]).meta.draft
        && posts.contains(live[i]) by {
        posts.lemma_filter_pred(is_published(), i);
        assert(live.contains(live[i]));
        posts.lemma_filter_contains_rev(is_published(), live[i]);
    }
}

/// Among posts that stand from the newest to the oldest, the published ones
/// stand so too: the first twenty of them are the twenty most recent.
pub proof fn lemma_published_descends(posts: Seq<Post>)
    requires
        descending(posts),
    ensures
        descending(published_of(posts)),
        descending(feed_posts_of(posts)),
    decreases posts.len(),
{
    let live = published_of(posts);
    if posts.len() > 0 {
        let front = posts.drop_last();
        assert(descending(front));
        lemma_published_descends(front);
        lemma_published(front);
        front.lemma_filter_push(posts.last(), is_published());
        assert(front.push(posts.last()) =~= posts);
        let before = published_of(front);
        assert forall|i: int, j: int| 0 <= i < j < live.len() implies !published_at(
            #[trigger] live[i],
        ).before(published_at(#[trigger] live[j])) by {
            if j == before.len() {
                assert(front.contains(before[i]));
                let k = choose|k: int| 0 <= k < front.len() && front[k] == before[i];
                assert(posts[k] == before[i]);
                assert(!published_at(posts[k]).before(published_at(posts[posts.len() - 1])));
            }
        }
    } else {
        posts.lemma_filter_len(is_published());
    }
    let head = feed_posts_of(posts);
    assert forall|i: int, j: int| 0 <= i < j < head.len() implies !published_at(
        #[trigger] head[i],
    ).before(published_at(#[trigger] head[j])) by {
        assert(head[i] == live[i] && head[j] == live[j]);
    }
}

/// The posts that are no drafts, in their order.
pub fn published<'a>(posts: &'a Vec<Post>) -> (live: Vec<&'a Post>)
    ensures
        posts_of(live@) == published_of(posts@),
{
    let mut live: Vec<&'a Post> = Vec::new();
    let mut i: usize = 0;
    proof {
        posts@.subrange(0, 0).lemma_filter_len(is_published());
        assert(posts_of(live@) =~= published_of(posts@.subrange(0, 0)));
    }
    while i < posts.len()
        invariant
            i <= posts.len(),
            posts_of(live@) == published_of(posts@.subrange(0, i as int)),
        decreases posts.len() - i,
    {
        let ghost before = live@;
        proof {
            posts@.subrange(0, i as int).lemma_filter_push(posts@[i as int], is_published());
            assert(posts@.subrange(0, i as int).push(posts@[i as int]) =~= posts@.subrange(
                0,
                i + 1,
            ));
        }
        if !posts[i].meta.draft {
            live.push(&posts[i]);
            assert(posts_of(live@) =~= posts_of(before).push(posts@[i as int]));
        }
        i += 1;
    }
    assert(posts@.subrange(0, posts@.len() as int) =~= posts@);
    live
}

/// The posts of a feed: the first twenty that are no drafts.
pub fn feed_posts<'a>(posts: &'a Vec<Post>) -> (first: Vec<&'a Post>)
    ensures
        posts_of(first@) == feed_posts_of(posts@),
{
    let mut live = published(posts);
    if live.len() > FEED_LIMIT {
        let ghost before = live@;
        live.truncate(FEED_LIMIT);
        assert(posts_of(live@) =~= posts_of(before).subrange(0, 20));
    }
    live
}

/// A numbered page under a base path: `p/` and the number, joined to the
/// base.
pub open spec fn numbered(base: Seq<char>, number: int) -> Seq<char> {
    joined(base, "p/"@ + decimal(number as nat))
}

/// The path of a numbered page under a base path.
pub fn numbered_path(base: &str, number: usize) -> (path: String)
    ensures
        path@ == numbered(base@, number as int),
{
    let mut rel = "p/".to_owned();
    push_decimal(&mut rel, number);
    join(base, rel.as_str())
}

/// The path of an index page under the path of its category: the category
/// itself for the first page, then the pages numbered from two.
pub open spec fn index_path(path: Seq<char>, index: int) -> Seq<char> {
    if index == 0 {
        path
    } else {
        numbered(path, index + 1)
    }
}

/// The address of a category's first index page: its path behind a slash.
pub open spec fn index_base(path: Seq<char>) -> Seq<char> {
    joined("/"@, path)
}

/// The address of the index page before the one with this index.
pub open spec fn previous_of(path: Seq<char>, index: int) -> Option<Seq<char>> {
    if index <= 0 {
        None
    } else if index == 1 {
        Some(index_base(path))
    } else {
        Some(numbered(index_base(path), index))
    }
}

/// The address of the index page behind the one with this index, of
/// `pages` pages.
pub open spec fn following_of(path: Seq<char>, index: int, pages: int) -> Option<Seq<char>> {
    if index < pages - 1 {
        Some(numbered(index_base(path), index + 2))
    } else {
        None
    }
}

/// One index page: where it is written, the addresses of its neighbours,
/// and its posts.
#[derive(Debug)]
pub struct IndexPage<'a> {
    /// The page's path under the site, which is its address as well.
    pub page_path: String,
    /// The directory to write the page into.
    pub dir: String,
    /// The file to write.
    pub file: String,
    pub prev_page: Option<String>,
    pub next_page: Option<String>,
    pub posts: Vec<&'a Post>,
}

/// Whether `page` is the index page with this index of a category at
/// `path` with the published posts `live`, built under `root`.
pub open spec fn is_index_page(
    page: IndexPage,
    index: int,
    path: Seq<char>,
    live: Seq<Post>,
    per_page: int,
    root: Seq<char>,
) -> bool {
    &&& page.page_path@ == index_path(path, index)
    &&& page.dir@ == joined(root, index_path(path, index))
    &&& page.file@ == joined(joined(root, index_path(path, index)), "index.html"@)
    &&& option_view(page.prev_page) == previous_of(path, index)
    &&& option_view(page.next_page) == following_of(
        path,
        index,
        page_count(live.len() as int, per_page),
    )
    &&& posts_of(page.posts@) == live.subrange(
        page_start(index, per_page),
        page_end(index, per_page, live.len() as int),
    )
}

/// The page of one post: where it is written, its address, and the post.
#[derive(Debug)]
pub struct PostPage<'a> {
    pub dir: String,
    pub file: String,
    pub current_url: String,
    pub post: &'a Post,
}

/// The address of a post on a site: the site's address, the category and
/// the slug, with slashes between them.
pub open spec fn post_address(site: Seq<char>, category: Seq<char>, slug: Seq<char>) -> Seq<char> {
    site.push('/') + category + seq!['/'] + slug
}

/// Whether `page` is the page of `post` on a site at the address `site`,
/// built under `root`.
pub open spec fn is_post_page(page: PostPage, post: Post, site: Seq<char>, root: Seq<char>) -> bool {
    &&& *page.post == post
    &&& page.dir@ == joined(root, post.url@)
    &&& page.file@ == joined(joined(root, post.url@), "index.html"@)
    &&& page.current_url@ == post_address(site, post.category@, post.slug@)
}

/// What is written for one category.
#[derive(Debug)]
pub struct CategoryBuild<'a> {
    pub index: Vec<IndexPage<'a>>,
    pub posts: Vec<PostPage<'a>>,
    pub feed_file: String,
    pub feed: String,
}

/// The name of a category's feed: its slug with dots for slashes, and
/// `.xml`.
pub open spec fn feed_name(slug: Seq<char>) -> Seq<char> {
    replaced(slug, '/', '.') + ".xml"@
}

/// A post as it is read: its slug, its front matter and its Markdown text.
#[derive(Debug)]
pub struct SourcePost {
    pub slug: String,
    pub meta: FrontMatter,
    pub body: String,
}

/// The posts read from one directory.
#[derive(Debug)]
pub struct SourceGroup {
    pub slug: String,
    pub posts: Vec<SourcePost>,
}

/// Why a site is not built.
#[derive(Debug)]
pub enum BuildError {
    /// A post does not compile.
    Compile(CompileError),
    /// The page size is zero.
    PageSize,
}

/// The error with which a post's text fails to compile, if it does.
pub open spec fn failure_of(source: SourcePost) -> Option<CompileErrorView> {
    match layout_of(markdown_tokens(source.body@)) {
        Ok(_) => None,
        Err(e) => Some(e),
    }
}

/// The error of the first of the first `count` posts that fails to compile.
pub open spec fn first_failure(sources: Seq<SourcePost>, count: int) -> Option<CompileErrorView>
    decreases count,
{
    if count <= 0 {
        None
    } else {
        match first_failure(sources, count - 1) {
            Some(e) => Some(e),
            None => failure_of(sources[count - 1]),
        }
    }
}

/// The error of the first post that fails to compile in the first `count`
/// groups, taken group by group.
pub open spec fn first_group_failure(groups: Seq<SourceGroup>, count: int) -> Option<
    CompileErrorView,
>
    decreases count,
{
    if count <= 0 {
        None
    } else {
        match first_group_failure(groups, count - 1) {
            Some(e) => Some(e),
            None => first_failure(groups[count - 1].posts@, groups[count - 1].posts@.len() as int),
        }
    }
}

/// Whether `post` is what `source` compiles to in this category.
pub open spec fn post_compiled(post: Post, category: Seq<char>, source: SourcePost) -> bool {
    match layout_of(markdown_tokens(source.body@)) {
        Ok(layout) => assembled(
            post,
            category,
            source.slug@,
            source.meta,
            rendered_html(source.body@, layout.body),
            rendered_html(source.body@, layout.title),
            layout.excerpt,
            layout.main_image,
        ),
        Err(_) => false,
    }
}

/// Whether `posts` are what `sources` compile to, one by one.
pub open spec fn posts_compiled(
    posts: Seq<Post>,
    category: Seq<char>,
    sources: Seq<SourcePost>,
) -> bool {
    &&& posts.len() == sources.len()
    &&& forall|j: int|
        0 <= j < posts.len() ==> post_compiled(#[trigger] posts[j], category, sources[j])
}

/// Whether `category` holds the posts of `group`, compiled and sorted from
/// the newest to the oldest.
pub open spec fn category_built(category: Category, group: SourceGroup) -> bool {
    &&& category.slug@ == group.slug@
    &&& exists|posts: Seq<Post>| #[trigger]
        posts_compiled(posts, group.slug@, group.posts@) && category.posts@ == newest_first(
            posts,
        )
}

/// The posts of all categories, category by category.
pub open spec fn flattened(categories: Seq<Category>) -> Seq<Post>
    decreases categories.len(),
{
    if categories.len() == 0 {
        Seq::empty()
    } else {
        categories[0].posts@ + flattened(categories.drop_first())
    }
}

/// The references from `from` up to `to`.
fn copy_range<'a>(posts: &Vec<&'a Post>, from: usize, to: usize) -> (copy: Vec<&'a Post>)
    requires
        from <= to <= posts.len(),
    ensures
        copy@ == posts@.subrange(from as int, to as int),
{
    let mut copy: Vec<&'a Post> = Vec::new();
    let mut i: usize = from;
    while i < to
        invariant
            from <= i <= to <= posts.len(),
            copy@ == posts@.subrange(from as int, i as int),
        decreases to - i,
    {
        copy.push(posts[i]);
        assert(copy@ =~= posts@.subrange(from as int, i + 1));
        i += 1;
    }
    copy
}

/// Compiles the posts of one category, in their order.
pub fn compile_group(slug: &str, sources: &Vec<SourcePost>) -> (r: Result<Vec<Post>, CompileError>)
    ensures
        match r {
            Ok(posts) => first_failure(sources@, sources@.len() as int) is None && posts_compiled(
                posts@,
                slug@,
                sources@,
            ),
            Err(e) => first_failure(sources@, sources@.len() as int) == Some(e@),
        },
{
    let mut posts: Vec<Post> = Vec::new();
    let mut i: usize = 0;
    while i < sources.len()
        invariant
            i <= sources.len(),
            first_failure(sources@, i as int) is None,
            posts_compiled(posts@, slug@, sources@.subrange(0, i as int)),
        decreases sources.len() - i,
    {
        let source = &sources[i];
        match compile_post(slug, source.slug.as_str(), source.meta, source.body.as_str()) {
            Ok(post) => {
                posts.push(post);
            },
            Err(e) => {
                proof {
                    lemma_failure_stays(sources@, i + 1, sources@.len() as int);
                }
                return Err(e);
            },
        }
        i += 1;
    }
    assert(sources@.subrange(0, sources@.len() as int) =~= sources@);
    Ok(posts)
}

/// Once a post fails, the first failure stays what it is.
pub proof fn lemma_failure_stays(sources: Seq<SourcePost>, count: int, more: int)
    requires
        count <= more,
        first_failure(sources, count) is Some,
    ensures
        first_failure(sources, more) == first_failure(sources, count),
    decreases more - count,
{
    if count < more {
        lemma_failure_stays(sources, count, more - 1);
    }
}

/// Once a group fails, the first failure stays what it is.
pub proof fn lemma_group_failure_stays(groups: Seq<SourceGroup>, count: int, more: int)
    requires
        count <= more,
        first_group_failure(groups, count) is Some,
    ensures
        first_group_failure(groups, more) == first_group_failure(groups, count),
    decreases more - count,
{
    if count < more {
        lemma_group_failure_stays(groups, count, more - 1);
    }
}

/// All posts of the categories, from the newest to the oldest; posts of the
/// same moment stay in the order of their categories.
pub fn all_posts(categories: Vec<Category>) -> (posts: Vec<Post>)
    ensures
        posts@ == newest_first(flattened(categories@)),
{
    let mut rest = categories;
    let mut posts: Vec<Post> = Vec::new();
    assert(posts@ + flattened(rest@) =~= flattened(categories@));
    while rest.len() > 0
        invariant
            posts@ + flattened(rest@) == flattened(categories@),
        decreases rest.len(),
    {
        let ghost before = rest@;
        let ghost so_far = posts@;
        let mut category = rest.remove(0);
        assert(rest@ =~= before.drop_first());
        posts.append(&mut category.posts);
        assert(posts@ + flattened(rest@) =~= so_far + flattened(before));
    }
    assert(posts@ + flattened(rest@) =~= posts@);
    sort_newest_first(posts)
}

impl Port {
    /// The directory that the site is built into.
    pub open spec fn build_root(self) -> Seq<char> {
        joined(self.config.root@, ".build"@)
    }

    /// The directory that the site is built into.
    pub fn build_dir(&self) -> (dir: String)
        ensures
            dir@ == self.build_root(),
    {
        join(self.config.root.as_str(), ".build")
    }

    /// The file that a page outside the categories is written to: its
    /// template's name under the build directory.
    pub fn build_static(&self, template: &str) -> (file: String)
        ensures
            file@ == joined(self.build_root(), template@),
    {
        let dir = self.build_dir();
        join(dir.as_str(), template)
    }

    /// Lays out the index pages of the category at `path`: its published
    /// posts in pages, each page with its place and its neighbours.
    pub fn build_index<'a>(&self, path: &str, posts: &'a Vec<Post>) -> (pages: Vec<IndexPage<'a>>)
        requires
            self.config.per_page > 0,
        ensures
            pages.len() == page_count(
                published_of(posts@).len() as int,
                self.config.per_page as int,
            ),
            forall|i: int|
                0 <= i < pages.len() ==> is_index_page(
                    #[trigger] pages[i],
                    i,
                    path@,
                    published_of(posts@),
                    self.config.per_page as int,
                    self.build_root(),
                ),
    {
        let root = self.build_dir();
        let base = join("/", path);
        let live = published(posts);
        let cut = paginate(live.as_slice(), self.config.per_page);
        let ghost all = published_of(posts@);
        let mut pages: Vec<IndexPage<'a>> = Vec::new();
        let mut i: usize = 0;
        let mut from: usize = 0;
        assert(0 * (self.config.per_page as int) == 0);
        while i < cut.len()
            invariant
                i <= cut.len(),
                pages.len() == i,
                self.config.per_page > 0,
                live@.len() == all.len(),
                i < cut.len() ==> from == page_start(
                    i as int,
                    self.config.per_page as int,
                ),
                root@ == self.build_root(),
                base@ == index_base(path@),
                all == posts_of(live@),
                cut.len() == page_count(all.len() as int, self.config.per_page as int),
                forall|k: int|
                    0 <= k < cut.len() ==> is_page(
                        #[trigger] cut[k],
                        k,
                        live@,
                        self.config.per_page as int,
                    ),
                forall|k: int|
                    0 <= k < pages.len() ==> is_index_page(
                        #[trigger] pages[k],
                        k,
                        path@,
                        all,
                        self.config.per_page as int,
                        self.build_root(),
                    ),
            decreases cut.len() - i,
        {
            let page = &cut[i];
            assert(is_page(*page, i as int, live@, self.config.per_page as int));
            proof {
                lemma_pages_cover(
                    all.len() as int,
                    self.config.per_page as int,
                    i as int,
                );
            }
            let page_path = if page.page == 0 {
                path.to_owned()
            } else {
                numbered_path(path, page.page + 1)
            };
            let prev_page = match page.prev {
                Some(number) => Some(
                    if number == 1 {
                        base.clone()
                    } else {
                        numbered_path(base.as_str(), number)
                    },
                ),
                None => None,
            };
            let next_page = match page.next {
                Some(number) => Some(numbered_path(base.as_str(), number)),
                None => None,
            };
            let dir = join(root.as_str(), page_path.as_str());
            let file = join(dir.as_str(), "index.html");
            assert(page.posts@ == live@.subrange(
                page_start(i as int, self.config.per_page as int),
                page_end(i as int, self.config.per_page as int, all.len() as int),
            ));
            let to: usize = if live.len() - from > self.config.per_page {
                from + self.config.per_page
            } else {
                live.len()
            };
            assert((i + 1) * (self.config.per_page as int) == i * (self.config.per_page as int)
                + self.config.per_page) by (nonlinear_arith);
            let shown = copy_range(&live, from, to);
            proof {
                if i + 1 < cut.len() {
                    lemma_pages_cover(
                        all.len() as int,
                        self.config.per_page as int,
                        i + 1,
                    );
                }
            }
            assert(posts_of(shown@) =~= all.subrange(
                page_start(i as int, self.config.per_page as int),
                page_end(i as int, self.config.per_page as int, all.len() as int),
            ));
            pages.push(IndexPage { page_path, dir, file, prev_page, next_page, posts: shown });
            from = to;
            i += 1;
        }
        pages
    }

    /// Lays out the pages of the posts, one a post, drafts too.
    pub fn build_posts<'a>(&self, posts: &'a Vec<Post>) -> (pages: Vec<PostPage<'a>>)
        ensures
            pages.len() == posts.len(),
            forall|i: int|
                0 <= i < pages.len() ==> is_post_page(
                    #[trigger] pages[i],
                    posts@[i],
                    self.config.url@,
                    self.build_root(),
                ),
    {
        let root = self.build_dir();
        let mut pages: Vec<PostPage<'a>> = Vec::new();
        let mut i: usize = 0;
        while i < posts.len()
            invariant
                i <= posts.len(),
                pages.len() == i,
                root@ == self.build_root(),
                forall|k: int|
                    0 <= k < pages.len() ==> is_post_page(
                        #[trigger] pages[k],
                        posts@[k],
                        self.config.url@,
                        self.build_root(),
                    ),
            decreases posts.len() - i,
        {
            let post = &posts[i];
            let mut current_url = self.config.url.clone();
            current_url.push('/');
            current_url.append(post.category.as_str());
            current_url.push('/');
            current_url.append(post.slug.as_str());
            assert(current_url@ =~= post_address(self.config.url@, post.category@, post.slug@));
            let dir = join(root.as_str(), post.url.as_str());
            let file = join(dir.as_str(), "index.html");
            pages.push(PostPage { dir, file, current_url, post });
            i += 1;
        }
        pages
    }

    /// Writes the feed of the posts as RSS XML, under the site's name,
    /// address and description, with dates at the site's offset from UTC.
    pub fn compile_rss(&self, posts: &Vec<&Post>) -> (r: Result<String, FeedError>)
        ensures
            match r {
                Ok(xml) => feed_of(
                    self.config.name@,
                    self.config.url@,
                    self.config.desc@,
                    posts_of(posts@),
                    self.config.timezone as int,
                ) == Ok::<Seq<char>, FeedError>(xml@),
                Err(e) => feed_of(
                    self.config.name@,
                    self.config.url@,
                    self.config.desc@,
                    posts_of(posts@),
                    self.config.timezone as int,
                ) == Err::<Seq<char>, FeedError>(e),
            },
    {
        feed(
            self.config.name.as_str(),
            self.config.url.as_str(),
            self.config.desc.as_str(),
            posts,
            self.config.timezone,
        )
    }

    /// Lays out what is written for one category: its index pages, the
    /// pages of its posts, and its feed of the first twenty published
    /// posts. Fails exactly where the feed cannot be written.
    pub fn build_category<'a>(&self, slug: &str, posts: &'a Vec<Post>) -> (r: Result<
        CategoryBuild<'a>,
        FeedError,
    >)
        requires
            self.config.per_page > 0,
        ensures
            match r {
                Ok(built) => {
                    &&& built.index.len() == page_count(
                        published_of(posts@).len() as int,
                        self.config.per_page as int,
                    )
                    &&& forall|i: int|
                        0 <= i < built.index.len() ==> is_index_page(
                            #[trigger] built.index[i],
                            i,
                            slug@,
                            published_of(posts@),
                            self.config.per_page as int,
                            self.build_root(),
                        )
                    &&& built.posts.len() == posts.len()
                    &&& forall|i: int|
                        0 <= i < built.posts.len() ==> is_post_page(
                            #[trigger] built.posts[i],
                            posts@[i],
                            self.config.url@,
                            self.build_root(),
                        )
                    &&& built.feed_file@ == joined(
                        joined(self.build_root(), "rss"@),
                        feed_name(slug@),
                    )
                    &&& feed_of(
                        self.config.name@,
                        self.config.url@,
                        self.config.desc@,
                        feed_posts_of(posts@),
                        self.config.timezone as int,
                    ) == Ok::<Seq<char>, FeedError>(built.feed@)
                },
                Err(e) => feed_of(
                    self.config.name@,
                    self.config.url@,
                    self.config.desc@,
                    feed_posts_of(posts@),
                    self.config.timezone as int,
                ) == Err::<Seq<char>, FeedError>(e),
            },
    {
        let index = self.build_index(slug, posts);
        let pages = self.build_posts(posts);
        let root = self.build_dir();
        let rss_dir = join(root.as_str(), "rss");
        let mut name = replace_char(slug, '/', '.');
        name.append(".xml");
        let feed_file = join(rss_dir.as_str(), name.as_str());
        let first = feed_posts(posts);
        match self.compile_rss(&first) {
            Ok(xml) => Ok(CategoryBuild { index, posts: pages, feed_file, feed: xml }),
            Err(e) => Err(e),
        }
    }

    /// Compiles the posts of every group and sorts each category from the
    /// newest to the oldest.
    ///
    /// Fails with the error of the first post that does not compile, the
    /// groups taken in order; and, where all compile, with `PageSize` if
    /// the configured page size is zero.
    pub fn build(&self, groups: &Vec<SourceGroup>) -> (r: Result<Vec<Category>, BuildError>)
        ensures
            match r {
                Ok(categories) => {
                    &&& first_group_failure(groups@, groups@.len() as int) is None
                    &&& self.config.per_page > 0
                    &&& categories.len() == groups.len()
                    &&& forall|i: int|
                        0 <= i < categories.len() ==> category_built(
                            #[trigger] categories[i],
                            groups@[i],
                        )
                },
                Err(BuildError::Compile(e)) => first_group_failure(groups@, groups@.len() as int)
                    == Some(e@),
                Err(BuildError::PageSize) => first_group_failure(groups@, groups@.len() as int)
                    is None && self.config.per_page == 0,
            },
    {
        let mut categories: Vec<Category> = Vec::new();
        let mut i: usize = 0;
        while i < groups.len()
            invariant
                i <= groups.len(),
                categories.len() == i,
                first_group_failure(groups@, i as int) is None,
                forall|k: int|
                    0 <= k < categories.len() ==> category_built(
                        #[trigger] categories[k],
                        groups@[k],
                    ),
            decreases groups.len() - i,
        {
            let group = &groups[i];
            match compile_group(group.slug.as_str(), &group.posts) {
                Ok(posts) => {
                    let ghost unsorted = posts@;
                    let sorted = sort_newest_first(posts);
                    let category = Category { slug: group.slug.clone(), posts: sorted };
                    assert(posts_compiled(unsorted, group.slug@, group.posts@) && category.posts@
                        == newest_first(unsorted));
                    categories.push(category);
                },
                Err(e) => {
                    proof {
                        lemma_group_failure_stays(groups@, i + 1, groups@.len() as int);
                    }
                    return Err(BuildError::Compile(e));
                },
            }
            i += 1;
        }
        if self.config.per_page == 0 {
            return Err(BuildError::PageSize);
        }
        Ok(categories)
    }
}

} // verus!
