use vstd::prelude::*;
use vstd::string::*;

verus! {

/// One listed mod, as the listing data file describes it.
pub struct Mod {
    pub name: String,
    pub stars: u32,
    /// Time of the last commit, in whole milliseconds since the Unix epoch.
    pub date_tt: u64,
    pub desc: String,
    pub link: String,
    /// Repository identifier, in `owner/name` form.
    pub repo: String,
    pub wiki: Option<String>,
    pub delta_ago: String,
    /// Icon path relative to the repository root.
    pub icon_raw: Option<String>,
    pub contents: Vec<String>,
    pub assets: Vec<String>,
}

/// Base of the raw file host that serves repository files.
pub const RAW_CONTENT_BASE: &'static str = "https://raw.githubusercontent.com";

/// Image shown where a mod has no usable icon.
pub const PLACEHOLDER_ICON: &'static str = "../images/nothing.png";

/// Index of the last `c` in `s`, or -1 if there is none.
pub open spec fn last_index_of(s: Seq<char>, c: char) -> int
    decreases s.len(),
{
    if s.len() == 0 {
        -1
    } else if s.last() == c {
        s.len() - 1
    } else {
        last_index_of(s.drop_last(), c)
    }
}

/// The part of `name` after its last `/`, or all of it when it has none.
pub open spec fn display_name(name: Seq<char>) -> Seq<char> {
    name.subrange(last_index_of(name, '/') + 1, name.len() as int)
}

/// `s` with each `/` written as `--`.
pub open spec fn dashed(s: Seq<char>) -> Seq<char>
    decreases s.len(),
{
    if s.len() == 0 {
        seq![]
    } else {
        dashed(s.drop_last()) + (if s.last() == '/' {
            "--"@
        } else {
            seq![s.last()]
        })
    }
}

/// Address of the locally rendered page of the mod in repository `repo`.
pub open spec fn endpoint_of(repo: Seq<char>) -> Seq<char> {
    "../m/"@ + dashed(repo) + ".html"@
}

/// Address of the archive of the default branch of repository `repo`.
pub open spec fn archive_of(repo: Seq<char>) -> Seq<char> {
    "https://github.com/"@ + repo + "/archive/master.zip"@
}

/// Address of the file at `path` on the default branch of repository `repo`.
pub open spec fn raw_file_of(repo: Seq<char>, path: Seq<char>) -> Seq<char> {
    RAW_CONTENT_BASE@ + "/"@ + repo + "/master/"@ + path
}

/// The tags of `v` that are shown: all but the noise tag `content`.
pub open spec fn shown_tags(v: Seq<String>) -> Seq<String>
    decreases v.len(),
{
    if v.len() == 0 {
        seq![]
    } else if v.last()@ == "content"@ {
        shown_tags(v.drop_last())
    } else {
        shown_tags(v.drop_last()).push(v.last())
    }
}

/// One mark of a star rating.
pub enum StarGlyph {
    /// One star.
    Filled,
    /// The mark of a mod that has no stars.
    Empty,
}

/// The marks of a rating of `stars` stars.
pub open spec fn star_glyphs(stars: u32) -> Seq<StarGlyph> {
    if stars == 0 {
        seq![StarGlyph::Empty]
    } else {
        Seq::new(stars as nat, |i: int| StarGlyph::Filled)
    }
}

/// The icon of a card.
pub enum Icon {
    /// The placeholder image.
    Placeholder,
    /// An image at this address, which falls back to the placeholder if it fails to load.
    Image(String),
}

impl View for Icon {
    /// The image address, or `None` for the placeholder.
    type V = Option<Seq<char>>;

    open spec fn view(&self) -> Option<Seq<char>> {
        match self {
            Icon::Placeholder => None,
            Icon::Image(url) => Some(url@),
        }
    }
}

/// The icon of a mod of repository `repo` with icon path `icon_raw`.
pub open spec fn icon_of(repo: Seq<char>, icon_raw: Option<String>) -> Option<Seq<char>> {
    match icon_raw {
        Some(p) => if p@.len() == 0 {
            None
        } else {
            Some(raw_file_of(repo, p@))
        },
        None => None,
    }
}

/// The characters of an optional string.
pub open spec fn opt_view(o: Option<String>) -> Option<Seq<char>> {
    match o {
        Some(s) => Some(s@),
        None => None,
    }
}

/// What a card shows of one mod.
pub struct Card {
    /// Where the title and the icon lead.
    pub href: String,
    pub icon: Icon,
    pub title: String,
    pub description: String,
    pub repo_link: String,
    pub archive_link: String,
    /// Shown only when present.
    pub wiki: Option<String>,
    pub stars: Vec<StarGlyph>,
    pub assets: Vec<String>,
    pub contents: Vec<String>,
}

/// A mathematical picture of a [`Card`].
pub struct CardView {
    pub href: Seq<char>,
    pub icon: Option<Seq<char>>,
    pub title: Seq<char>,
    pub description: Seq<char>,
    pub repo_link: Seq<char>,
    pub archive_link: Seq<char>,
    pub wiki: Option<Seq<char>>,
    pub stars: Seq<StarGlyph>,
    pub assets: Seq<String>,
    pub contents: Seq<String>,
}

impl View for Card {
    type V = CardView;

    open spec fn view(&self) -> CardView {
        CardView {
            href: self.href@,
            icon: self.icon@,
            title: self.title@,
            description: self.description@,
            repo_link: self.repo_link@,
            archive_link: self.archive_link@,
            wiki: opt_view(self.wiki),
            stars: self.stars@,
            assets: self.assets@,
            contents: self.contents@,
        }
    }
}

/// The card of mod `m`.
pub open spec fn card_of(m: Mod) -> CardView {
    CardView {
        href: endpoint_of(m.repo@),
        icon: icon_of(m.repo@, m.icon_raw),
        title: display_name(m.name@),
        description: m.desc@,
        repo_link: m.link@,
        archive_link: archive_of(m.repo@),
        wiki: opt_view(m.wiki),
        stars: star_glyphs(m.stars),
        assets: shown_tags(m.assets@),
        contents: shown_tags(m.contents@),
    }
}

proof fn lemma_last_index(s: Seq<char>, c: char, k: int)
    requires
        -1 <= k < s.len(),
        k >= 0 ==> s[k] == c,
        forall|j: int| k < j < s.len() ==> s[j] != c,
    ensures
        last_index_of(s, c) == k,
    decreases s.len(),
{
    if s.len() > 0 && k < s.len() - 1 {
        lemma_last_index(s.drop_last(), c, k);
    }
}

/// The tags of `v` without the noise tag `content`, in their order.
pub fn tiny_list(v: &Vec<String>) -> (r: Vec<String>)
    ensures
        r@ == shown_tags(v@),
{
    let noise = String::from_str("content");
    let mut r: Vec<String> = Vec::new();
    let mut i: usize = 0;
    while i < v.len()
        invariant
            i <= v@.len(),
            noise@ == "content"@,
            r@ == shown_tags(v@.subrange(0, i as int)),
        decreases v@.len() - i,
    {
        proof {
            let t = v@.subrange(0, i + 1);
            assert(t.drop_last() =~= v@.subrange(0, i as int));
            assert(t.last() == v@[i as int]);
        }
        if v[i] != noise {
            r.push(v[i].clone());
        }
        i = i + 1;
    }
    proof {
        assert(v@.subrange(0, v@.len() as int) =~= v@);
    }
    r
}

impl Mod {
    pub fn assets_list(&self) -> (r: Vec<String>)
        ensures
            r@ == shown_tags(self.assets@),
    {
        tiny_list(&self.assets)
    }

    pub fn contents_list(&self) -> (r: Vec<String>)
        ensures
            r@ == shown_tags(self.contents@),
    {
        tiny_list(&self.contents)
    }

    /// Address of the archive of the mod's repository.
    pub fn archive_link(&self) -> (r: String)
        ensures
            r@ == archive_of(self.repo@),
    {
        String::from_str("https://github.com/").concat(self.repo.as_str()).concat(
            "/archive/master.zip",
        )
    }

    /// Address of the locally rendered page of the mod.
    pub fn endpoint_href(&self) -> (r: String)
        ensures
            r@ == endpoint_of(self.repo@),
    {
        let s = self.repo.as_str();
        let n = s.unicode_len();
        let mut out = String::from_str("../m/");
        let mut i: usize = 0;
        while i < n
            invariant
                n == s@.len(),
                s@ == self.repo@,
                i <= n,
                out@ == "../m/"@ + dashed(s@.subrange(0, i as int)),
            decreases n - i,
        {
            proof {
                let t = s@.subrange(0, i + 1);
                assert(t.drop_last() =~= s@.subrange(0, i as int));
                assert(t.last() == s@[i as int]);
            }
            let c = s.get_char(i);
            if c == '/' {
                out.append("--");
            } else {
                let one = s.substring_char(i, i + 1);
                proof {
                    assert(one@ =~= seq![c]);
                }
                out.append(one);
            }
            proof {
                assert(out@ =~= "../m/"@ + dashed(s@.subrange(0, i + 1)));
            }
            i = i + 1;
        }
        proof {
            assert(s@.subrange(0, n as int) =~= s@);
        }
        out.concat(".html")
    }

    /// Link to the mod's repository.
    pub fn repo_link(&self) -> (r: String)
        ensures
            r@ == self.link@,
    {
        self.link.clone()
    }

    /// Link to the mod's wiki, when it has one.
    pub fn wiki_link(&self) -> (r: Option<String>)
        ensures
            opt_view(r) == opt_view(self.wiki),
    {
        match &self.wiki {
            Some(w) => Some(w.clone()),
            None => None,
        }
    }

    /// How long ago the last commit was.
    pub fn last_commit(&self) -> (r: String)
        ensures
            r@ == self.delta_ago@ + " ago"@,
    {
        self.delta_ago.clone().concat(" ago")
    }

    /// The marks of the mod's star rating.
    pub fn stars_el(&self) -> (r: Vec<StarGlyph>)
        ensures
            r@ == star_glyphs(self.stars),
    {
        let mut r: Vec<StarGlyph> = Vec::new();
        if self.stars == 0 {
            r.push(StarGlyph::Empty);
            proof {
                assert(r@ =~= star_glyphs(self.stars));
            }
            return r;
        }
        let mut i: u32 = 0;
        while i < self.stars
            invariant
                i <= self.stars,
                r@ =~= Seq::new(i as nat, |j: int| StarGlyph::Filled),
            decreases self.stars - i,
        {
            r.push(StarGlyph::Filled);
            i = i + 1;
        }
        r
    }

    /// The mod's icon: its image, or the placeholder when it has no icon path.
    pub fn icon(&self) -> (r: Icon)
        ensures
            r@ == icon_of(self.repo@, self.icon_raw),
    {
        match &self.icon_raw {
            Some(p) => {
                if p.as_str().unicode_len() == 0 {
                    Icon::Placeholder
                } else {
                    let url = String::from_str(RAW_CONTENT_BASE).concat("/").concat(
                        self.repo.as_str(),
                    ).concat("/master/").concat(p.as_str());
                    Icon::Image(url)
                }
            },
            None => Icon::Placeholder,
        }
    }

    /// Description of the mod.
    pub fn description(&self) -> (r: String)
        ensures
            r@ == self.desc@,
    {
        self.desc.clone()
    }

    /// The name to show: the part after the last `/`, for names that are paths.
    pub fn mod_name(&self) -> (r: String)
        ensures
            r@ == display_name(self.name@),
    {
        let s = self.name.as_str();
        let n = s.unicode_len();
        let mut i: usize = n;
        while i > 0 && s.get_char(i - 1) != '/'
            invariant
                n == s@.len(),
                s@ == self.name@,
                i <= n,
                forall|j: int| i <= j < n ==> s@[j] != '/',
            decreases i,
        {
            i = i - 1;
        }
        proof {
            lemma_last_index(s@, '/', i - 1);
        }
        String::from_str(s.substring_char(i, n))
    }

    /// The card that the listing shows for this mod.
    pub fn listing_item(&self) -> (r: Card)
        ensures
            r@ == card_of(*self),
    {
        Card {
            href: self.endpoint_href(),
            icon: self.icon(),
            title: self.mod_name(),
            description: self.description(),
            repo_link: self.repo_link(),
            archive_link: self.archive_link(),
            wiki: self.wiki_link(),
            stars: self.stars_el(),
            assets: self.assets_list(),
            contents: self.contents_list(),
        }
    }
}

} // verus!
