//! Programs that run in a pane: their identity, icon and logo.

use vstd::prelude::*;

use crate::display::color::Rgb;
use crate::text;
use crate::unicode;

verus! {

/// AI clients whose real brand mark is drawn in the sidebar as a textured
/// quad, instead of a lookalike glyph.
#[derive(Debug, Clone, Copy, PartialEq, Eq, Hash, Structural)]
pub enum AiLogo {
    /// A coral starburst.
    Claude,
    /// A blossom knot (codex).
    OpenAi,
    /// A terminal frame. Two-tone: bright frame and dimmer inner block, encoded
    /// as luma and multiplied by the theme ink.
    OpenCode,
}

/// `s` without the quotation marks that begin it.
pub open spec fn unquoted_start(s: Seq<char>) -> Seq<char>
    decreases s.len(),
{
    if s.len() > 0 && s[0] == '"' {
        unquoted_start(s.drop_first())
    } else {
        s
    }
}

/// `s` without the quotation marks that end it.
pub open spec fn unquoted_end(s: Seq<char>) -> Seq<char>
    decreases s.len(),
{
    if s.len() > 0 && s.last() == '"' {
        unquoted_end(s.drop_last())
    } else {
        s
    }
}

/// What stands behind the last slash or backslash.
pub open spec fn base_name(s: Seq<char>) -> Seq<char>
    decreases s.len(),
{
    if s.len() == 0 || s.last() == '/' || s.last() == '\\' {
        Seq::empty()
    } else {
        base_name(s.drop_last()).push(s.last())
    }
}

/// A name without the extension of a launcher.
pub open spec fn without_launcher(name: Seq<char>) -> Seq<char> {
    if text::ends_with(name, ".exe"@) || text::ends_with(name, ".cmd"@) || text::ends_with(
        name,
        ".bat"@,
    ) || text::ends_with(name, ".ps1"@) || text::ends_with(name, ".com"@) {
        name.take(name.len() - 4)
    } else {
        name
    }
}

/// The program that a command line runs: its first word in lower case, without
/// path prefix and launcher extension.
pub open spec fn program_of(line: Seq<char>) -> Option<Seq<char>> {
    let words = unicode::words(line);
    if words.len() == 0 {
        None
    } else {
        let base = base_name(unquoted_end(unquoted_start(words[0])));
        let name = without_launcher(text::ascii_lower(base));
        if name.len() == 0 {
            None
        } else {
            Some(name)
        }
    }
}

fn has_suffix(v: &Vec<char>, p: &str) -> (r: bool)
    ensures
        r == text::ends_with(v@, p@),
{
    let p = text::chars_of(p);
    if p.len() > v.len() {
        return false;
    }
    let at: usize = v.len() - p.len();
    text::occurs(v.as_slice(), p.as_slice(), at)
}

pub open spec fn optional_text(s: Option<String>) -> Option<Seq<char>> {
    match s {
        Some(s) => Some(s@),
        None => None,
    }
}

/// First word of a committed command line, normalized to a program identity:
/// lowercased, path prefix and launcher extensions stripped.
/// `D:\tools\Cargo.EXE build` gives `cargo`.
pub fn extract_program(line: &str) -> (r: Option<String>)
    ensures
        optional_text(r) == program_of(line@),
{
    let words = unicode::split_words(text::chars_of(line).as_slice());
    let ghost all = unicode::words(line@);
    if words.len() == 0 {
        return None;
    }
    assert(all[0] == words@[0]@);
    let first: &Vec<char> = &words[0];
    let mut from: usize = 0;
    let mut to: usize = first.len();
    assert(first@.skip(0) =~= first@);
    while from < to && first[from] == '"'
        invariant
            from <= to == first@.len(),
            unquoted_start(first@) == unquoted_start(first@.skip(from as int)),
        decreases to - from,
    {
        assert(first@.skip(from as int).drop_first() =~= first@.skip(from + 1));
        from += 1;
    }
    let ghost start = unquoted_start(first@);
    assert(start == first@.skip(from as int));
    assert(first@.subrange(from as int, to as int) =~= start);
    while from < to && first[to - 1] == '"'
        invariant
            from <= to <= first@.len(),
            unquoted_end(start) == unquoted_end(first@.subrange(from as int, to as int)),
        decreases to - from,
    {
        assert(first@.subrange(from as int, to as int).drop_last() =~= first@.subrange(
            from as int,
            to - 1,
        ));
        to -= 1;
    }
    let bare = text::chars_of_range(first.as_slice(), from, to);
    assert(unquoted_end(start) == bare@);
    let mut i: usize = bare.len();
    assert(bare@.take(i as int) =~= bare@);
    assert(base_name(bare@) =~= base_name(bare@.take(i as int)) + bare@.skip(i as int));
    while i > 0 && bare[i - 1] != '/' && bare[i - 1] != '\\'
        invariant
            i <= bare@.len(),
            base_name(bare@) =~= base_name(bare@.take(i as int)) + bare@.skip(i as int),
        decreases i,
    {
        assert(bare@.take(i as int).drop_last() =~= bare@.take(i - 1));
        assert(seq![bare@[i - 1]] + bare@.skip(i as int) =~= bare@.skip(i - 1));
        i -= 1;
    }
    let base = text::string_of_range(bare.as_slice(), i, bare.len());
    assert(base@ =~= base_name(bare@));
    let name = text::chars_of(text::to_ascii_lower(base.as_str()).as_str());
    proof {
        reveal_strlit(".exe");
        reveal_strlit(".cmd");
        reveal_strlit(".bat");
        reveal_strlit(".ps1");
        reveal_strlit(".com");
        assert(".exe"@.len() == 4);
        assert(".cmd"@.len() == 4);
        assert(".bat"@.len() == 4);
        assert(".ps1"@.len() == 4);
        assert(".com"@.len() == 4);
    }
    let len: usize = if has_suffix(&name, ".exe") || has_suffix(&name, ".cmd") || has_suffix(
        &name,
        ".bat",
    ) || has_suffix(&name, ".ps1") || has_suffix(&name, ".com") {
        name.len() - 4
    } else {
        name.len()
    };
    if len == 0 {
        return None;
    }
    let r = text::string_of_range(name.as_slice(), 0, len);
    assert(r@ =~= without_launcher(name@));
    Some(r)
}

/// The client whose logo stands for a program, where logos can be drawn.
/// `hooks_tool` is the program name of the client with hooks.
pub open spec fn logo_of(program: Seq<char>, hooks_tool: Seq<char>) -> Option<AiLogo> {
    if program == hooks_tool {
        Some(AiLogo::Claude)
    } else if program == "codex"@ {
        Some(AiLogo::OpenAi)
    } else if program == "opencode"@ {
        Some(AiLogo::OpenCode)
    } else {
        None
    }
}

/// Real-logo mapping for AI clients; everything else falls back to the
/// [`program_icon`] glyph. Where images cannot be drawn, the glyph must stay.
pub fn ai_logo(program: &str, hooks_tool: &str, can_draw_images: bool) -> (r: Option<AiLogo>)
    ensures
        r == if can_draw_images {
            logo_of(program@, hooks_tool@)
        } else {
            None
        },
{
    if !can_draw_images {
        return None;
    }
    if text::str_eq(program, hooks_tool) {
        Some(AiLogo::Claude)
    } else if text::str_eq(program, "codex") {
        Some(AiLogo::OpenAi)
    } else if text::str_eq(program, "opencode") {
        Some(AiLogo::OpenCode)
    } else {
        None
    }
}

/// The glyph of a program: AI clients and common tools get distinct marks,
/// everything else shares a generic "running" play sign.
pub open spec fn icon_of(program: Seq<char>, hooks_tool: Seq<char>) -> Seq<char> {
    if program == hooks_tool {
        "\u{f0ce5}"@
    } else if program == "codex"@ {
        "\u{f02d8}"@
    } else if program == "gemini"@ {
        "\u{f0ce6}"@
    } else if program == "copilot"@ {
        "\u{f4b8}"@
    } else if program == "cursor"@ || program == "cursor-agent"@ {
        "\u{f0ec3}"@
    } else if program == "aider"@ || program == "goose"@ || program == "crush"@ || program == "ollama"@ {
        "\u{f06a9}"@
    } else if program == "opencode"@ {
        "\u{f489}"@
    } else if program == "git"@ || program == "gh"@ || program == "lazygit"@ {
        "\u{f418}"@
    } else if program == "vim"@ || program == "nvim"@ || program == "vi"@ || program == "hx"@ || program == "nano"@ {
        "\u{e62b}"@
    } else if program == "ssh"@ || program == "mosh"@ {
        "\u{f489}"@
    } else if program == "cargo"@ || program == "rustc"@ {
        "\u{e7a8}"@
    } else if program == "node"@ || program == "npm"@ || program == "pnpm"@ || program == "yarn"@ || program == "bun"@ || program == "deno"@ {
        "\u{e718}"@
    } else if program == "python"@ || program == "python3"@ || program == "pip"@ || program == "uv"@ {
        "\u{e73c}"@
    } else if program == "docker"@ || program == "podman"@ {
        "\u{e7b0}"@
    } else {
        "\u{f04b}"@
    }
}

/// Sidebar icon for a running program.
pub fn program_icon(program: &str, hooks_tool: &str) -> (r: &'static str)
    ensures
        r@ == icon_of(program@, hooks_tool@),
{
    if text::str_eq(program, hooks_tool) {
        "\u{f0ce5}"
    } else if text::str_eq(program, "codex") {
        "\u{f02d8}"
    } else if text::str_eq(program, "gemini") {
        "\u{f0ce6}"
    } else if text::str_eq(program, "copilot") {
        "\u{f4b8}"
    } else if text::str_eq(program, "cursor") || text::str_eq(program, "cursor-agent") {
        "\u{f0ec3}"
    } else if text::str_eq(program, "aider") || text::str_eq(program, "goose") || text::str_eq(program, "crush") || text::str_eq(program, "ollama") {
        "\u{f06a9}"
    } else if text::str_eq(program, "opencode") {
        "\u{f489}"
    } else if text::str_eq(program, "git") || text::str_eq(program, "gh") || text::str_eq(program, "lazygit") {
        "\u{f418}"
    } else if text::str_eq(program, "vim") || text::str_eq(program, "nvim") || text::str_eq(program, "vi") || text::str_eq(program, "hx") || text::str_eq(program, "nano") {
        "\u{e62b}"
    } else if text::str_eq(program, "ssh") || text::str_eq(program, "mosh") {
        "\u{f489}"
    } else if text::str_eq(program, "cargo") || text::str_eq(program, "rustc") {
        "\u{e7a8}"
    } else if text::str_eq(program, "node") || text::str_eq(program, "npm") || text::str_eq(program, "pnpm") || text::str_eq(program, "yarn") || text::str_eq(program, "bun") || text::str_eq(program, "deno") {
        "\u{e718}"
    } else if text::str_eq(program, "python") || text::str_eq(program, "python3") || text::str_eq(program, "pip") || text::str_eq(program, "uv") {
        "\u{e73c}"
    } else if text::str_eq(program, "docker") || text::str_eq(program, "podman") {
        "\u{e7b0}"
    } else {
        "\u{f04b}"
    }
}

/// A local link without its scheme.
pub open spec fn without_scheme(uri: Seq<char>) -> Seq<char> {
    if text::starts_with(uri, "file:///"@) {
        uri.skip(8)
    } else if text::starts_with(uri, "file://"@) {
        uri.skip(7)
    } else {
        uri
    }
}

/// Drops a `file://` or `file:///` scheme so that a local link reads as a plain
/// path in the hover tooltip; other links pass through.
pub fn strip_file_scheme(uri: &str) -> (r: String)
    ensures
        r@ == without_scheme(uri@),
{
    let v = text::chars_of(uri);
    proof {
        reveal_strlit("file:///");
        reveal_strlit("file://");
        assert("file:///"@.len() == 8);
        assert("file://"@.len() == 7);
    }
    let from: usize = if text::has_prefix(
        v.as_slice(),
        text::chars_of("file:///").as_slice(),
    ) {
        8
    } else if text::has_prefix(v.as_slice(), text::chars_of("file://").as_slice()) {
        7
    } else {
        0
    };
    let r = text::string_of_range(v.as_slice(), from, v.len());
    assert(r@ =~= without_scheme(uri@));
    r
}

proof fn lemma_no_slash(s: Seq<char>)
    ensures
        forall|i: int|
            0 <= i < base_name(s).len() ==> base_name(s)[i] != '/' && base_name(s)[i] != '\\',
    decreases s.len(),
{
    if s.len() > 0 && s.last() != '/' && s.last() != '\\' {
        lemma_no_slash(s.drop_last());
        let front = base_name(s.drop_last());
        assert forall|i: int| 0 <= i < base_name(s).len() implies base_name(s)[i] != '/'
            && base_name(s)[i] != '\\' by {
            if i < front.len() {
                assert(base_name(s)[i] == front[i]);
            }
        }
    }
}

/// A program's identity holds neither slashes nor capitals, and is never empty.
pub proof fn law_program_names_are_plain(line: Seq<char>)
    ensures
        program_of(line) matches Some(name) ==> name.len() > 0 && forall|i: int|
            #![trigger name[i]]
            0 <= i < name.len() ==> name[i] != '/' && name[i] != '\\' && !('A' <= name[i]
                <= 'Z'),
{
    if let Some(name) = program_of(line) {
        let base = base_name(unquoted_end(unquoted_start(unicode::words(line)[0])));
        lemma_no_slash(unquoted_end(unquoted_start(unicode::words(line)[0])));
        let lower = text::ascii_lower(base);
        reveal_strlit(".exe");
        reveal_strlit(".cmd");
        reveal_strlit(".bat");
        reveal_strlit(".ps1");
        reveal_strlit(".com");
        assert(".exe"@.len() == 4);
        assert(".cmd"@.len() == 4);
        assert(".bat"@.len() == 4);
        assert(".ps1"@.len() == 4);
        assert(".com"@.len() == 4);
        assert forall|i: int| #![trigger name[i]] 0 <= i < name.len() implies name[i] != '/'
            && name[i] != '\\' && !('A' <= name[i] <= 'Z') by {
            assert(name[i] == lower[i]);
            assert(lower[i] == text::lower_char(base[i]));
        }
    }
}

/// A pixel channel of a logo in the chrome's ink, by its brightness.
pub open spec fn tinted(ink: u8, luma: u8) -> u8 {
    ((ink * luma) / 255) as u8
}

/// Byte `i` of a logo's pixels in the chrome's ink. One mark keeps its own color,
/// one takes the ink, and one takes the ink scaled by its brightness; what is
/// behind the last whole pixel stays.
pub open spec fn logo_byte(logo: AiLogo, ink: Rgb, pixels: Seq<u8>, i: int) -> u8 {
    let channel = i % 4;
    let whole = i / 4 * 4 + 4 <= pixels.len();
    if channel == 3 || !whole {
        pixels[i]
    } else {
        let c = if channel == 0 {
            ink.r
        } else if channel == 1 {
            ink.g
        } else {
            ink.b
        };
        match logo {
            AiLogo::Claude => pixels[i],
            AiLogo::OpenAi => c,
            AiLogo::OpenCode => tinted(c, pixels[i / 4 * 4]),
        }
    }
}

fn tint(ink: u8, luma: u8) -> (r: u8)
    ensures
        r == tinted(ink, luma),
{
    proof {
        assert(ink * luma <= 255 * 255) by (nonlinear_arith)
            requires
                ink <= 255,
                luma <= 255,
        ;
    }
    (ink as u16 * luma as u16 / 255) as u8
}

/// The pixels of a logo in the chrome's ink.
pub fn ai_logo_pixels(logo: AiLogo, ink: Rgb, pixels: &Vec<u8>) -> (r: Vec<u8>)
    ensures
        r@.len() == pixels@.len(),
        forall|i: int| 0 <= i < pixels@.len() ==> #[trigger] r@[i] == logo_byte(logo, ink, pixels@, i),
{
    let mut r: Vec<u8> = Vec::new();
    let len: usize = pixels.len();
    let mut i: usize = 0;
    while i < len
        invariant
            i <= len == pixels@.len(),
            r@.len() == i,
            forall|j: int| 0 <= j < i ==> #[trigger] r@[j] == logo_byte(logo, ink, pixels@, j),
        decreases len - i,
    {
        let channel: usize = i % 4;
        let first: usize = i - channel;
        let b: u8 = pixels[i];
        let out: u8 = if channel == 3 || len - first < 4 {
            b
        } else {
            let c: u8 = if channel == 0 {
                ink.r
            } else if channel == 1 {
                ink.g
            } else {
                ink.b
            };
            match logo {
                AiLogo::Claude => b,
                AiLogo::OpenAi => c,
                AiLogo::OpenCode => tint(c, pixels[first]),
            }
        };
        r.push(out);
        i += 1;
    }
    r
}

/// Whether the pixels of a logo depend on the ink.
pub fn logo_follows_ink(logo: AiLogo) -> (r: bool)
    ensures
        r == (logo != AiLogo::Claude),
{
    logo != AiLogo::Claude
}

/// A bright pixel takes the full ink, a black one none of it.
pub proof fn law_tint_spans_the_ink(ink: u8, luma: u8)
    ensures
        tinted(ink, 255) == ink,
        tinted(ink, 0) == 0,
        tinted(ink, luma) <= ink,
{
    assert(ink * luma / 255 <= ink) by (nonlinear_arith)
        requires
            0 <= luma <= 255,
            0 <= ink,
    ;
}

} // verus!
