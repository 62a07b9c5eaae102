//! The command surface: the parsed invocation, the decision of what each
//! command performs, and the content-creation logic of the `new` command.
//! Argument parsing itself and all filesystem work belong to the caller.

use vstd::prelude::*;
use vstd::string::StringExecFns;
use crate::helpers::lower_of;
use crate::text::{chars_of, push_str_chars, spec_trim, string_from_chars, trim_chars};

verus! {

broadcast use vstd::std_specs::vec::group_vec_axioms, vstd::seq::group_seq_axioms;

/// What kind of content the `new` command creates.
#[derive(Debug, Clone, PartialEq, Eq)]
pub enum ContentType {
    Page,
    Post,
    Article,
    Note,
    Snippet,
}

/// A parsed subcommand, with its per-invocation overrides. Paths are
/// carried as plain text.
#[derive(Debug)]
pub enum Commands {
    Init { path: String, force: bool },
    Build { clean: bool, watch: bool, minify: bool, drafts: bool, config: String },
    Serve { port: u16, watch: bool, config: String },
    New { content_type: ContentType, title: String, draft: bool, config: String },
    Clean { config: String },
    Validate { config: String },
    Version,
}

/// A parsed invocation.
#[derive(Debug)]
pub struct Cli {
    pub command: Commands,
    pub verbose: bool,
}

/// The canonical name of a content type.
pub open spec fn spec_content_type_name(t: ContentType) -> Seq<char> {
    match t {
        ContentType::Page => "page"@,
        ContentType::Post => "post"@,
        ContentType::Article => "article"@,
        ContentType::Note => "note"@,
        ContentType::Snippet => "snippet"@,
    }
}

pub fn content_type_name(t: &ContentType) -> (r: &'static str)
    ensures
        r@ == spec_content_type_name(*t),
{
    match t {
        ContentType::Page => "page",
        ContentType::Post => "post",
        ContentType::Article => "article",
        ContentType::Note => "note",
        ContentType::Snippet => "snippet",
    }
}

/// What a command performs, as a plain action for the caller to execute.
#[derive(Debug)]
pub enum CommandPlan {
    Init { path: String, force: bool },
    Build { clean: bool, watch: bool, minify: bool, drafts: bool, config: String },
    Serve { port: u16, watch: bool, config: String },
    New { kind: String, title: String, draft: bool, config: String },
    Clean { config: String },
    Validate { config: String },
    Version,
}

/// Decides what a command performs: each subcommand maps to its action,
/// carrying its arguments through unchanged; the content type of `new` is
/// canonicalized to its name.
pub fn process_command(command: Commands) -> (r: CommandPlan)
    ensures
        match command {
            Commands::Init { path, force } => r matches CommandPlan::Init { path: p, force: f }
                && p == path && f == force,
            Commands::Build { clean, watch, minify, drafts, config } => r
                matches CommandPlan::Build { clean: c, watch: w, minify: m, drafts: d, config: g }
                && c == clean && w == watch && m == minify && d == drafts && g == config,
            Commands::Serve { port, watch, config } => r matches CommandPlan::Serve {
                port: p,
                watch: w,
                config: g,
            } && p == port && w == watch && g == config,
            Commands::New { content_type, title, draft, config } => r matches CommandPlan::New {
                kind: k,
                title: t,
                draft: d,
                config: g,
            } && k@ == spec_content_type_name(content_type) && t == title && d == draft && g
                == config,
            Commands::Clean { config } => r matches CommandPlan::Clean { config: g } && g
                == config,
            Commands::Validate { config } => r matches CommandPlan::Validate { config: g } && g
                == config,
            Commands::Version => r is Version,
        },
{
    match command {
        Commands::Init { path, force } => CommandPlan::Init { path, force },
        Commands::Build { clean, watch, minify, drafts, config } => CommandPlan::Build {
            clean,
            watch,
            minify,
            drafts,
            config,
        },
        Commands::Serve { port, watch, config } => CommandPlan::Serve { port, watch, config },
        Commands::New { content_type, title, draft, config } => {
            let kind = content_type_name(&content_type).to_owned();
            CommandPlan::New { kind, title, draft, config }
        },
        Commands::Clean { config } => CommandPlan::Clean { config },
        Commands::Validate { config } => CommandPlan::Validate { config },
        Commands::Version => CommandPlan::Version,
    }
}

/// Decides a whole invocation: whether logging is verbose, and what the
/// command performs.
pub fn run(cli: Cli) -> (r: (bool, CommandPlan))
    ensures
        r.0 == cli.verbose,
{
    let Cli { command, verbose } = cli;
    (verbose, process_command(command))
}

/// How one character of a lowercased, trimmed title lands in a slug: a
/// space becomes a dash, an ASCII letter, digit or dash stands, anything
/// else is dropped.
pub open spec fn slug_char(c: char) -> Seq<char> {
    if c == ' ' {
        seq!['-']
    } else if (97 <= c as u32 && c as u32 <= 122) || (48 <= c as u32 && c as u32 <= 57) || c
        == '-' {
        seq![c]
    } else {
        Seq::empty()
    }
}

/// The slug of a lowercased, trimmed title.
pub open spec fn spec_slug_of(s: Seq<char>) -> Seq<char>
    decreases s.len(),
{
    if s.len() == 0 {
        Seq::empty()
    } else {
        slug_char(s[0]) + spec_slug_of(s.drop_first())
    }
}

proof fn lemma_slug_snoc(s: Seq<char>, c: char)
    ensures
        spec_slug_of(s.push(c)) == spec_slug_of(s) + slug_char(c),
    decreases s.len(),
{
    if s.len() == 0 {
        assert(s.push(c)[0] == c);
        assert(s.push(c).drop_first() =~= Seq::<char>::empty());
        assert(spec_slug_of(Seq::<char>::empty()) =~= Seq::<char>::empty());
        assert(spec_slug_of(s.push(c)) =~= spec_slug_of(s) + slug_char(c));
    } else {
        assert(s.push(c).drop_first() =~= s.drop_first().push(c));
        lemma_slug_snoc(s.drop_first(), c);
        assert(spec_slug_of(s.push(c)) =~= spec_slug_of(s) + slug_char(c));
    }
}

/// The slug a title generates: the title lowercased and trimmed, spaces
/// turned to dashes, every character other than an ASCII letter, digit or
/// dash dropped.
pub fn slugify(title: &str) -> (r: String)
    ensures
        r@ == spec_slug_of(spec_trim(lower_of(title@))),
{
    let lowered = crate::helpers::to_lowercase(title);
    let lchars = chars_of(lowered.as_str());
    let t = trim_chars(&lchars);
    let n = t.len();
    let mut out: Vec<char> = Vec::new();
    let mut i: usize = 0;
    proof {
        assert(t@.subrange(0, 0) =~= Seq::<char>::empty());
        assert(out@ =~= spec_slug_of(t@.subrange(0, 0)));
    }
    while i < n
        invariant
            i <= n,
            n == t@.len(),
            t@ == spec_trim(lower_of(title@)),
            out@ == spec_slug_of(t@.subrange(0, i as int)),
        decreases n - i,
    {
        let c = t[i];
        let u = c as u32;
        if c == ' ' {
            out.push('-');
        } else if (97 <= u && u <= 122) || (48 <= u && u <= 57) || c == '-' {
            out.push(c);
        }
        proof {
            assert(t@.subrange(0, i as int).push(t@[i as int]) =~= t@.subrange(0, i + 1));
            lemma_slug_snoc(t@.subrange(0, i as int), t@[i as int]);
            assert(out@ =~= spec_slug_of(t@.subrange(0, i + 1)));
        }
        i += 1;
    }
    proof {
        assert(t@.subrange(0, n as int) =~= t@);
    }
    string_from_chars(&out)
}

/// The document text the `new` command writes for an article-like kind:
/// frontmatter with the given fields, then a skeleton body.
pub open spec fn spec_article_document(
    title: Seq<char>,
    slug: Seq<char>,
    date: Seq<char>,
    draft: bool,
    kind: Seq<char>,
) -> Seq<char> {
    "---\ntitle: "@ + title + "\nslug: "@ + slug + "\ndate: "@ + date + "\nlayout: base\ndraft: "@
        + (if draft {
        "true"@
    } else {
        "false"@
    }) + "\ntags: []\ncategory: "@ + kind + "\n---\n# "@ + title + "\n\nStart writing your "@
        + kind + " here...\n\n## Introduction\nWrite your introduction here.\n\n## Main Content\nAdd your main content here.\n\n## Conclusion\nWrap up your "@
        + kind + " here.\n\n---\n*Published on "@ + date + "*\n"@
}

/// The document text the `new` command writes for a note-like kind.
pub open spec fn spec_note_document(
    title: Seq<char>,
    slug: Seq<char>,
    date: Seq<char>,
    draft: bool,
) -> Seq<char> {
    "---\ntitle: "@ + title + "\nslug: "@ + slug + "\ndate: "@ + date + "\nlayout: base\ndraft: "@
        + (if draft {
        "true"@
    } else {
        "false"@
    }) + "\ntype: note\n---\n# "@ + title + "\n\nQuick note: "@ + title + "\n\n---\n*Note created on "@
        + date + "*\n"@
}

/// Builds the document of a new content file: the article skeleton for
/// `page`, `post` and `article`, the note skeleton for `note` and
/// `snippet`.
pub fn new_content_document(
    kind: &ContentType,
    title: &str,
    slug: &str,
    date: &str,
    draft: bool,
) -> (r: String)
    ensures
        match kind {
            ContentType::Page | ContentType::Post | ContentType::Article => r@
                == spec_article_document(
                title@,
                slug@,
                date@,
                draft,
                spec_content_type_name(*kind),
            ),
            ContentType::Note | ContentType::Snippet => r@ == spec_note_document(
                title@,
                slug@,
                date@,
                draft,
            ),
        },
{
    let mut out: Vec<char> = Vec::new();
    push_str_chars(&mut out, "---\ntitle: ");
    push_str_chars(&mut out, title);
    push_str_chars(&mut out, "\nslug: ");
    push_str_chars(&mut out, slug);
    push_str_chars(&mut out, "\ndate: ");
    push_str_chars(&mut out, date);
    push_str_chars(&mut out, "\nlayout: base\ndraft: ");
    if draft {
        push_str_chars(&mut out, "true");
    } else {
        push_str_chars(&mut out, "false");
    }
    let is_note = match kind {
        ContentType::Note | ContentType::Snippet => true,
        _ => false,
    };
    if is_note {
        push_str_chars(&mut out, "\ntype: note\n---\n# ");
        push_str_chars(&mut out, title);
        push_str_chars(&mut out, "\n\nQuick note: ");
        push_str_chars(&mut out, title);
        push_str_chars(&mut out, "\n\n---\n*Note created on ");
        push_str_chars(&mut out, date);
        push_str_chars(&mut out, "*\n");
        let r = string_from_chars(&out);
        proof {
            assert(r@ =~= spec_note_document(title@, slug@, date@, draft));
        }
        r
    } else {
        let name = content_type_name(kind);
        push_str_chars(&mut out, "\ntags: []\ncategory: ");
        push_str_chars(&mut out, name);
        push_str_chars(&mut out, "\n---\n# ");
        push_str_chars(&mut out, title);
        push_str_chars(&mut out, "\n\nStart writing your ");
        push_str_chars(&mut out, name);
        push_str_chars(&mut out, " here...\n\n## Introduction\nWrite your introduction here.\n\n## Main Content\nAdd your main content here.\n\n## Conclusion\nWrap up your ");
        push_str_chars(&mut out, name);
        push_str_chars(&mut out, " here.\n\n---\n*Published on ");
        push_str_chars(&mut out, date);
        push_str_chars(&mut out, "*\n");
        let r = string_from_chars(&out);
        proof {
            assert(r@ =~= spec_article_document(
                title@,
                slug@,
                date@,
                draft,
                spec_content_type_name(*kind),
            ));
        }
        r
    }
}

/// Overrides the build-related toggles of a configuration from the
/// command line: the clean flag, all three minify toggles, and the drafts
/// flag; everything else stands.
pub fn apply_build_options(config: &mut crate::config::RawConfig, clean: bool, minify: bool,
    drafts: bool)
    ensures
        final(config).build.clean_build == clean,
        final(config).build.minify.html == minify,
        final(config).build.minify.css == minify,
        final(config).build.minify.js == minify,
        final(config).content.drafts == drafts,
        final(config).version == old(config).version,
        final(config).title == old(config).title,
        final(config).description == old(config).description,
        final(config).favicon == old(config).favicon,
        final(config).base_url == old(config).base_url,
        final(config).content.format == old(config).content.format,
        final(config).content.extensions == old(config).content.extensions,
        final(config).content.ignore == old(config).content.ignore,
        final(config).build.output_dir == old(config).build.output_dir,
        final(config).build.generate == old(config).build.generate,
        final(config).build.strict == old(config).build.strict,
        final(config).template == old(config).template,
        final(config).nav == old(config).nav,
        final(config).footer == old(config).footer,
        final(config).custom == old(config).custom,
{
    config.build.clean_build = clean;
    config.build.minify.html = minify;
    config.build.minify.css = minify;
    config.build.minify.js = minify;
    config.content.drafts = drafts;
}

} // verus!
