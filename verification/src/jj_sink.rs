//! The destination backed by a `jj` repository: its configuration, the
//! names and the contents of the files it writes.

use crate::select::{SyndicationFormat, SyndicationView};
use crate::sink::{holds, place_of, Batch, SinkError, SinkErrorView};
use crate::text::{
    char_is_alphanumeric, is_alphanumeric, join, join_words, leading, lowercase, push_char,
    split_words, to_lowercase, views, words,
};
use vstd::prelude::*;
use vstd::string::StringExecFns;

verus! {

/// How many leading words of a text make its slug and its title.
pub const LEADING_WORDS: usize = 8;

/// Whether a slug keeps `c`: letters, digits and the hyphen stay.
pub open spec fn slug_keeps(c: char) -> bool {
    is_alphanumeric(c) || c == '-'
}

/// What one word gives to a slug: its lowercase form without the
/// characters that a slug does not keep.
pub open spec fn slug_part(word: Seq<char>) -> Seq<char> {
    lowercase(word).filter(|c: char| slug_keeps(c))
}

/// The slug part of a word if anything is left of it.
pub open spec fn kept_part() -> spec_fn(Seq<char>) -> Option<Seq<char>> {
    |word: Seq<char>|
        if slug_part(word).len() > 0 {
            Some(slug_part(word))
        } else {
            None
        }
}

/// The slug of a text: the slug parts of its first eight words, those
/// that are not empty, joined with hyphens.
pub open spec fn slug_of(text: Seq<char>) -> Seq<char> {
    join(leading(words(text), LEADING_WORDS as nat).filter_map(kept_part()), seq!['-'])
}

/// The title of a text: its first eight words, joined with single spaces.
pub open spec fn title_of(text: Seq<char>) -> Seq<char> {
    join(leading(words(text), LEADING_WORDS as nat), seq![' '])
}

/// The name of the file of the item `id` whose text has the slug `slug`.
pub open spec fn filename_of(slug: Seq<char>, id: Seq<char>) -> Seq<char> {
    slug + seq!['-'] + id + ".md"@
}

/// One character as it stands inside a double-quoted front-matter value.
pub open spec fn yaml_escaped_char(c: char) -> Seq<char> {
    if c == '\\' {
        seq!['\\', '\\']
    } else if c == '"' {
        seq!['\\', '"']
    } else {
        seq![c]
    }
}

/// `s` with a backslash before each backslash and each double quote.
pub open spec fn yaml_escaped(s: Seq<char>) -> Seq<char>
    decreases s.len(),
{
    if s.len() == 0 {
        Seq::empty()
    } else {
        yaml_escaped(s.drop_last()) + yaml_escaped_char(s.last())
    }
}

/// A cross-reference as a file shows it: the title of the item it leads
/// to, and the address of that item's file.
pub struct LinkView {
    pub link_text: Seq<char>,
    pub href: Seq<char>,
}

/// The slugs of the entries of a batch, in order.
pub open spec fn slugs_of(batch: Seq<SyndicationView>) -> Seq<Seq<char>> {
    batch.map_values(|e: SyndicationView| slug_of(e.text))
}

/// The link to the item at `place` of `batch`.
pub open spec fn link_at(
    slugs: Seq<Seq<char>>,
    batch: Seq<SyndicationView>,
    place: int,
) -> LinkView {
    LinkView {
        link_text: title_of(batch[place].text),
        href: "/t/"@ + filename_of(slugs[place], batch[place].id),
    }
}

/// The link that a neighbour identifier gives: one to the item of the
/// batch that bears it, none where the batch holds no such item or
/// `slugs` has no slug for its place.
pub open spec fn link_to(slugs: Seq<Seq<char>>, batch: Seq<SyndicationView>) -> spec_fn(
    Seq<char>,
) -> Option<LinkView> {
    |id: Seq<char>|
        if holds(batch, id) && place_of(batch, id) < slugs.len() {
            Some(link_at(slugs, batch, place_of(batch, id)))
        } else {
            None
        }
}

/// The links of a list of neighbour identifiers, in the order of the
/// list: those that lead nowhere in the batch are passed over.
pub open spec fn links(
    ids: Seq<Seq<char>>,
    slugs: Seq<Seq<char>>,
    batch: Seq<SyndicationView>,
) -> Seq<LinkView> {
    ids.filter_map(link_to(slugs, batch))
}

/// The two front-matter lines of one link.
pub open spec fn link_lines(link: LinkView) -> Seq<char> {
    "  - link_text: \""@ + yaml_escaped(link.link_text) + "\"\n    href: \""@ + yaml_escaped(
        link.href,
    ) + "\"\n"@
}

/// The lines of all of `links`, in order.
pub open spec fn all_link_lines(links: Seq<LinkView>) -> Seq<char>
    decreases links.len(),
{
    if links.len() == 0 {
        Seq::empty()
    } else {
        all_link_lines(links.drop_last()) + link_lines(links.last())
    }
}

/// A front-matter list of links under `heading`; nothing at all where
/// there is no link.
pub open spec fn link_block(heading: Seq<char>, links: Seq<LinkView>) -> Seq<char> {
    if links.len() == 0 {
        Seq::empty()
    } else {
        heading + all_link_lines(links)
    }
}

/// The contents of the file of `item`: the front matter with title, date
/// and the two lists of links, an empty line, and the text as it is.
pub open spec fn file_contents(
    item: SyndicationView,
    date: Seq<char>,
    slugs: Seq<Seq<char>>,
    batch: Seq<SyndicationView>,
) -> Seq<char> {
    "---\ntitle: \""@ + yaml_escaped(title_of(item.text)) + "\"\ndate: "@ + date + "\n"@
        + link_block("context_for_this:\n"@, links(item.in_neighbor_ids, slugs, batch))
        + link_block("further_thinking:\n"@, links(item.out_neighbor_ids, slugs, batch))
        + "---\n\n"@ + item.text
}

/// Whether every character of `s` is one that a slug keeps.
pub open spec fn slug_safe(s: Seq<char>) -> bool {
    forall|i: int| 0 <= i < s.len() ==> slug_keeps(#[trigger] s[i])
}

proof fn join_of_safe_parts(parts: Seq<Seq<char>>)
    requires
        forall|i: int| 0 <= i < parts.len() ==> slug_safe(#[trigger] parts[i]),
    ensures
        slug_safe(join(parts, seq!['-'])),
    decreases parts.len(),
{
    if parts.len() > 1 {
        join_of_safe_parts(parts.drop_last());
        assert(slug_safe(parts.last()));
        assert(parts.drop_last().len() < parts.len());
    } else if parts.len() == 1 {
        assert(slug_safe(parts[0]));
    }
}

/// A slug holds nothing but letters, digits and hyphens, whatever the
/// text was.
pub proof fn slug_is_safe(text: Seq<char>)
    ensures
        slug_safe(slug_of(text)),
{
    let source = leading(words(text), LEADING_WORDS as nat);
    let parts = source.filter_map(kept_part());
    assert forall|i: int| 0 <= i < parts.len() implies slug_safe(#[trigger] parts[i]) by {
        assert(parts.contains(parts[i]));
        source.lemma_filter_map_contains(kept_part(), parts[i]);
        let word = choose|w: Seq<char>| #[trigger]
            source.contains(w) && kept_part()(w) == Some(parts[i]);
        let keeps = |c: char| slug_keeps(c);
        assert forall|j: int| 0 <= j < parts[i].len() implies slug_keeps(
            #[trigger] parts[i][j],
        ) by {
            lowercase(word).lemma_filter_pred(keeps, j);
        }
    }
    join_of_safe_parts(parts);
}

/// Equal texts have equal slugs.
pub proof fn slug_is_deterministic(text: Seq<char>, other: Seq<char>)
    requires
        text == other,
    ensures
        slug_of(text) == slug_of(other),
{
}

/// The first `n` of `items`, copied.
fn leading_texts(items: &Vec<String>, n: usize) -> (r: Vec<String>)
    ensures
        views(r@) == leading(views(items@), n as nat),
{
    let mut out: Vec<String> = Vec::new();
    let mut i: usize = 0;
    while i < items.len() && i < n
        invariant
            i <= items.len(),
            i <= n,
            views(out@) == views(items@).take(i as int),
        decreases items.len() - i,
    {
        out.push(items[i].clone());
        assert(views(out@) == views(items@).take(i as int).push(items@[i as int]@));
        i += 1;
    }
    assert(views(items@).take(items@.len() as int) == views(items@));
    out
}

/// A cross-reference from one file to another.
#[derive(Clone, Debug, PartialEq, Eq)]
pub struct Link {
    pub link_text: String,
    pub href: String,
}

impl View for Link {
    type V = LinkView;

    open spec fn view(&self) -> LinkView {
        LinkView { link_text: self.link_text@, href: self.href@ }
    }
}

/// Today's date in the local time zone, as year, month and day with
/// hyphens between them.
///
/// Wraps chrono's `Local::now` and `DateTime::format` with the pattern
/// `%Y-%m-%d`. The result depends on the clock and on the time zone of
/// the machine, so nothing is claimed of it.
#[verifier::external_body]
fn today() -> String {
    chrono::Local::now().format("%Y-%m-%d").to_string()
}

/// Configuration of a destination that commits files to a `jj`
/// repository and pushes them.
#[derive(Clone, Debug, PartialEq, Eq)]
pub struct JjRepositorySink {
    /// Where the repository lies.
    repo_path: String,
    /// The bookmark that each publication advances.
    bookmark_name: String,
    /// The remote that each publication is pushed to.
    remote_name: String,
    /// The folder inside the repository that receives the files.
    folder_path: String,
}

/// What the file system says of a path.
#[derive(Clone, Copy, Debug, PartialEq, Eq, Structural)]
pub struct PathFacts {
    pub exists: bool,
    pub is_dir: bool,
}

impl JjRepositorySink {
    /// The repository path.
    pub closed spec fn repo(&self) -> Seq<char> {
        self.repo_path@
    }

    /// The bookmark name.
    pub closed spec fn bookmark(&self) -> Seq<char> {
        self.bookmark_name@
    }

    /// The remote name.
    pub closed spec fn remote(&self) -> Seq<char> {
        self.remote_name@
    }

    /// The folder path.
    pub closed spec fn folder(&self) -> Seq<char> {
        self.folder_path@
    }

    /// A destination for the repository at `repo_path`, given what the
    /// file system says of that path. The path has to exist and to be a
    /// directory; the other three values are taken as they are.
    pub fn new(
        repo_path: &str,
        bookmark_name: &str,
        remote_name: &str,
        folder_path: &str,
        facts: PathFacts,
    ) -> (r: Result<JjRepositorySink, SinkError>)
        ensures
            match r {
                Ok(sink) => {
                    &&& facts.exists
                    &&& facts.is_dir
                    &&& sink.repo() == repo_path@
                    &&& sink.bookmark() == bookmark_name@
                    &&& sink.remote() == remote_name@
                    &&& sink.folder() == folder_path@
                },
                Err(error) => {
                    ||| !facts.exists && error@ == SinkErrorView::Config(
                        "Repository path does not exist: "@ + repo_path@,
                    )
                    ||| facts.exists && !facts.is_dir && error@ == SinkErrorView::Config(
                        "Repository path is not a directory: "@ + repo_path@,
                    )
                },
            },
    {
        if !facts.exists {
            return Err(
                SinkError::Config(
                    String::from_str("Repository path does not exist: ").concat(repo_path),
                ),
            );
        }
        if !facts.is_dir {
            return Err(
                SinkError::Config(
                    String::from_str("Repository path is not a directory: ").concat(repo_path),
                ),
            );
        }
        Ok(
            JjRepositorySink {
                repo_path: String::from_str(repo_path),
                bookmark_name: String::from_str(bookmark_name),
                remote_name: String::from_str(remote_name),
                folder_path: String::from_str(folder_path),
            },
        )
    }

    /// The repository path.
    pub fn repo_path(&self) -> (r: &str)
        ensures
            r@ == self.repo(),
    {
        self.repo_path.as_str()
    }

    /// The bookmark name.
    pub fn bookmark_name(&self) -> (r: &str)
        ensures
            r@ == self.bookmark(),
    {
        self.bookmark_name.as_str()
    }

    /// The remote name.
    pub fn remote_name(&self) -> (r: &str)
        ensures
            r@ == self.remote(),
    {
        self.remote_name.as_str()
    }

    /// The folder path.
    pub fn folder_path(&self) -> (r: &str)
        ensures
            r@ == self.folder(),
    {
        self.folder_path.as_str()
    }

    /// The name of this kind of destination.
    pub fn name(&self) -> (r: &'static str)
        ensures
            r@ == "jj"@,
    {
        "jj"
    }

    /// The slug of `text`: its first eight words, each in lowercase and
    /// without any character but letters, digits and hyphens, the empty
    /// ones dropped, joined with hyphens.
    pub fn generate_slug(text: &str) -> (r: String)
        ensures
            r@ == slug_of(text@),
            slug_safe(r@),
    {
        let all = split_words(text);
        let first = leading_texts(&all, LEADING_WORDS);
        let mut parts: Vec<String> = Vec::new();
        let mut i: usize = 0;
        while i < first.len()
            invariant
                i <= first.len(),
                views(parts@) == views(first@).take(i as int).filter_map(kept_part()),
            decreases first.len() - i,
        {
            let lowered = to_lowercase(first[i].as_str());
            let mut part = String::new();
            let ghost keeps = |c: char| slug_keeps(c);
            for c in it: lowered.as_str().chars()
                invariant
                    it.seq() == lowered@,
                    keeps == |c: char| slug_keeps(c),
                    part@ == lowered@.take(it.index() as int).filter(keeps),
            {
                proof {
                    assert(lowered@.take(it.index() + 1) == lowered@.take(it.index() as int).push(
                        c,
                    ));
                    lowered@.take(it.index() as int).lemma_filter_push(c, keeps);
                }
                if char_is_alphanumeric(c) || c == '-' {
                    push_char(&mut part, c);
                }
            }
            proof {
                assert(lowered@.take(lowered@.len() as int) == lowered@);
                assert(part@ == slug_part(first@[i as int]@));
                views(first@).lemma_filter_map_take_succ(kept_part(), i as int);
            }
            if !part.as_str().is_empty() {
                let ghost before = parts@;
                parts.push(part);
                assert(views(parts@) == views(before) + seq![part@]);
            } else {
                assert(views(parts@) == views(parts@) + Seq::<Seq<char>>::empty());
            }
            i += 1;
        }
        proof {
            assert(views(first@).take(first@.len() as int) == views(first@));
            slug_is_safe(text@);
        }
        let r = join_words(&parts, "-");
        proof {
            reveal_strlit("-");
            assert("-"@ == seq!['-']);
        }
        r
    }

    /// The first eight words of `text`, joined with single spaces.
    pub fn generate_title(text: &str) -> (r: String)
        ensures
            r@ == title_of(text@),
    {
        let all = split_words(text);
        let first = leading_texts(&all, LEADING_WORDS);
        let r = join_words(&first, " ");
        proof {
            reveal_strlit(" ");
            assert(" "@ == seq![' ']);
        }
        r
    }

    /// The name of the file of the item `node_id` with the slug `slug`.
    pub fn generate_filename(slug: &str, node_id: &str) -> (r: String)
        ensures
            r@ == filename_of(slug@, node_id@),
    {
        let mut out = String::from_str(slug);
        push_char(&mut out, '-');
        out.append(node_id);
        out.append(".md");
        out
    }

    /// `s` with a backslash put before each backslash and each double
    /// quote, as a double-quoted front-matter value needs it.
    pub fn escape_yaml_string(s: &str) -> (r: String)
        ensures
            r@ == yaml_escaped(s@),
    {
        let mut out = String::new();
        for c in it: s.chars()
            invariant
                it.seq() == s@,
                out@ == yaml_escaped(s@.take(it.index() as int)),
        {
            proof {
                let upto = s@.take(it.index() + 1);
                assert(upto.drop_last() == s@.take(it.index() as int));
                assert(upto.last() == c);
            }
            if c == '\\' {
                push_char(&mut out, '\\');
                push_char(&mut out, '\\');
            } else if c == '"' {
                push_char(&mut out, '\\');
                push_char(&mut out, '"');
            } else {
                push_char(&mut out, c);
            }
        }
        assert(s@.take(s@.len() as int) == s@);
        out
    }

    /// The slug of each item of `items`, in order.
    pub fn generate_slugs(items: &Batch) -> (r: Vec<String>)
        requires
            items.wf(),
        ensures
            views(r@) == slugs_of(items.entries()),
    {
        let mut out: Vec<String> = Vec::new();
        let mut i: usize = 0;
        while i < items.len()
            invariant
                items.wf(),
                i <= items.entries().len(),
                views(out@) == slugs_of(items.entries()).take(i as int),
            decreases items.entries().len() - i,
        {
            out.push(Self::generate_slug(items.item(i).text.as_str()));
            assert(views(out@) == slugs_of(items.entries()).take(i as int).push(
                slug_of(items.entries()[i as int].text),
            ));
            i += 1;
        }
        assert(slugs_of(items.entries()).take(items.entries().len() as int) == slugs_of(
            items.entries(),
        ));
        out
    }

    /// The links of the neighbours `ids`: one for each that `all_items`
    /// holds and `slugs` has a slug for, in the order of `ids`.
    pub fn collect_links(ids: &Vec<String>, slugs: &Vec<String>, all_items: &Batch) -> (r: Vec<
        Link,
    >)
        requires
            all_items.wf(),
        ensures
            views(r@) == links(views(ids@), views(slugs@), all_items.entries()),
    {
        let mut out: Vec<Link> = Vec::new();
        let mut i: usize = 0;
        let ghost to = link_to(views(slugs@), all_items.entries());
        while i < ids.len()
            invariant
                all_items.wf(),
                i <= ids.len(),
                to == link_to(views(slugs@), all_items.entries()),
                views(out@) == views(ids@).take(i as int).filter_map(to),
            decreases ids.len() - i,
        {
            proof {
                views(ids@).lemma_filter_map_take_succ(to, i as int);
            }
            let ghost before = out@;
            let ghost mut added = false;
            match all_items.position(ids[i].as_str()) {
                Some(place) => {
                    if place < slugs.len() {
                        let neighbor = all_items.item(place);
                        let mut href = String::from_str("/t/");
                        href.append(
                            Self::generate_filename(
                                slugs[place].as_str(),
                                neighbor.id.as_str(),
                            ).as_str(),
                        );
                        let link = Link {
                            link_text: Self::generate_title(neighbor.text.as_str()),
                            href,
                        };
                        out.push(link);
                        proof {
                            added = true;
                            assert(link@ == link_at(
                                views(slugs@),
                                all_items.entries(),
                                place as int,
                            ));
                            assert(views(out@) == views(before) + seq![link@]);
                        }
                    }
                },
                None => {},
            }
            proof {
                if !added {
                    assert(views(out@) == views(before) + Seq::<LinkView>::empty());
                }
            }
            i += 1;
        }
        assert(views(ids@).take(ids@.len() as int) == views(ids@));
        out
    }

    /// Appends to `out` the list of `links` under `heading`, or nothing
    /// where there is no link.
    pub fn append_link_block(out: &mut String, heading: &str, links: &Vec<Link>)
        ensures
            final(out)@ == old(out)@ + link_block(heading@, views(links@)),
    {
        if links.len() == 0 {
            assert(out@ + Seq::<char>::empty() == out@);
            return ;
        }
        out.append(heading);
        let ghost start = old(out)@ + heading@;
        let mut i: usize = 0;
        while i < links.len()
            invariant
                i <= links.len(),
                out@ == start + all_link_lines(views(links@).take(i as int)),
            decreases links.len() - i,
        {
            proof {
                let upto = views(links@).take(i + 1);
                assert(upto.drop_last() == views(links@).take(i as int));
                assert(upto.last() == links@[i as int]@);
            }
            out.append("  - link_text: \"");
            out.append(Self::escape_yaml_string(links[i].link_text.as_str()).as_str());
            out.append("\"\n    href: \"");
            out.append(Self::escape_yaml_string(links[i].href.as_str()).as_str());
            out.append("\"\n");
            assert(out@ == start + (all_link_lines(views(links@).take(i as int)) + link_lines(
                links@[i as int]@,
            )));
            i += 1;
        }
        assert(views(links@).take(links@.len() as int) == views(links@));
        assert(out@ == old(out)@ + (heading@ + all_link_lines(views(links@))));
    }

    /// The contents of the file of `item` on the day `date`: front
    /// matter, an empty line, the text. The in-neighbours of `item` give
    /// the list `context_for_this`, its out-neighbours the list
    /// `further_thinking`; a neighbour outside `all_items` gives no link.
    pub fn render_file_contents(
        item: &SyndicationFormat,
        date: &str,
        slugs: &Vec<String>,
        all_items: &Batch,
    ) -> (r: String)
        requires
            all_items.wf(),
        ensures
            r@ == file_contents(item@, date@, views(slugs@), all_items.entries()),
    {
        let context_for_this = Self::collect_links(&item.in_neighbor_ids, slugs, all_items);
        let further_thinking = Self::collect_links(&item.out_neighbor_ids, slugs, all_items);
        let mut out = String::from_str("---\ntitle: \"");
        let title = Self::generate_title(item.text.as_str());
        out.append(Self::escape_yaml_string(title.as_str()).as_str());
        out.append("\"\ndate: ");
        out.append(date);
        out.append("\n");
        Self::append_link_block(&mut out, "context_for_this:\n", &context_for_this);
        Self::append_link_block(&mut out, "further_thinking:\n", &further_thinking);
        out.append("---\n\n");
        out.append(item.text.as_str());
        out
    }

    /// The contents of the file of `item` as of today: what
    /// [`JjRepositorySink::render_file_contents`] gives for the date that
    /// the clock shows.
    pub fn generate_file_contents(
        item: &SyndicationFormat,
        slugs: &Vec<String>,
        all_items: &Batch,
    ) -> (r: String)
        requires
            all_items.wf(),
        ensures
            exists|date: Seq<char>|
                r@ == #[trigger] file_contents(item@, date, views(slugs@), all_items.entries()),
    {
        let date = today();
        Self::render_file_contents(item, date.as_str(), slugs, all_items)
    }
}

} // verus!
