//! The viewport renderer.
//!
//! Each frame is produced as one string of text and ANSI escape sequences:
//! the tree is flattened depth-first with invisible subtrees pruned, every
//! line is clipped to the terminal width, the window selected by the scroll
//! position is drawn with blank padding below it, matches are highlighted in
//! inverse video, and the pattern box with its byte dump fills the bottom
//! rows.  All widths and positions count characters.

use vstd::prelude::*;

use crate::pattern::find_ranges_wf;
use crate::pattern::ranges_view;
use crate::pattern::regex_find;
use crate::pattern::CompiledPattern;
use crate::strutil::append_hex_byte;
use crate::strutil::decimal_string;
use crate::strutil::fixed_length_string;
use crate::strutil::push_char;
use crate::strutil::spaces;
use crate::strutil::spec_decimal;
use crate::strutil::spec_fixed_length;
use crate::strutil::spec_hex_byte;
use crate::strutil::spec_spaces;
use crate::tree::color_of;
use crate::tree::determine_color;
use crate::tree::DirectoryNode;
use vstd::string::StringSliceAdditionalSpecFns;

verus! {

pub const NORMAL: &'static str = "\x1B[0m";

pub const INVERT: &'static str = "\x1B[7m";

pub const UNINVERT: &'static str = "\x1B[27m";

/// How the tree-drawing glyphs are rendered: `Full` uses two-character
/// connectors, `Compact` one-character ones.
#[derive(Clone, Copy, Debug, PartialEq, Eq, Structural)]
pub enum Style {
    Compact,
    Full,
}

/// One rendered line before clipping: the tree-drawing prefix with the
/// connector, the name with any inline error text, and the color the name is
/// drawn in.
pub struct Line {
    pub first_part: String,
    pub last_part: String,
    pub color: String,
}

/// The text of a line, for the specifications.
pub ghost struct LineV {
    pub first: Seq<char>,
    pub last: Seq<char>,
    pub color: Seq<char>,
}

pub open spec fn line_view(l: &Line) -> LineV {
    LineV { first: l.first_part@, last: l.last_part@, color: l.color@ }
}

/// `s` with every given range wrapped in inverse video, from range `k` on,
/// with everything from position `last` up to the next range copied plain.
pub open spec fn spec_highlight(s: Seq<char>, ranges: Seq<(int, int)>, k: int, last: int) -> Seq<
    char,
>
    decreases ranges.len() - k,
{
    if k >= ranges.len() {
        s.subrange(last, s.len() as int)
    } else {
        s.subrange(last, ranges[k].0) + INVERT@ + s.subrange(ranges[k].0, ranges[k].1) + UNINVERT@
            + spec_highlight(s, ranges, k + 1, ranges[k].1)
    }
}

/// Wraps every match range of `s` in inverse video, walking the ranges from
/// index `k` with `last` the first position not yet copied.
fn highlight_from(s: &str, ranges: &Vec<(usize, usize)>, k: usize, last: usize) -> (r: String)
    requires
        find_ranges_wf(ranges_view(ranges@), s@.len() as int),
        k <= ranges@.len(),
        last <= s@.len(),
        k < ranges@.len() ==> last <= ranges@[k as int].0,
    ensures
        r@ == spec_highlight(s@, ranges_view(ranges@), k as int, last as int),
    decreases ranges@.len() - k@,
{
    let len = s.unicode_len();
    if k == ranges.len() {
        s.substring_char(last, len).to_owned()
    } else {
        let (a, b) = ranges[k];
        proof {
            assert(ranges_view(ranges@)[k as int] == (
                ranges@[k as int].0 as int,
                ranges@[k as int].1 as int,
            ));
            assert(k + 1 < ranges@.len() ==> ranges_view(ranges@)[k + 1] == (
                ranges@[k as int + 1].0 as int,
                ranges@[k as int + 1].1 as int,
            ));
        }
        let mut out = s.substring_char(last, a).to_owned();
        out.append(INVERT);
        let mid = s.substring_char(a, b).to_owned();
        out.append(mid.as_str());
        out.append(UNINVERT);
        let rest = highlight_from(s, ranges, k + 1, b);
        out.append(rest.as_str());
        proof {
            assert(out@ =~= spec_highlight(s@, ranges_view(ranges@), k as int, last as int));
        }
        out
    }
}

/// Every match of the pattern inside `s`, wrapped in inverse video.
pub fn highlight(s: &str, re: &CompiledPattern) -> (r: String)
    ensures
        r@ == spec_highlight(s@, regex_find(re.pattern(), s@), 0, 0),
{
    let ranges = re.find_ranges(s);
    highlight_from(s, &ranges, 0, 0)
}

/// How a line is drawn into a viewport `n` characters wide: a prefix wider
/// than the viewport is cut; otherwise the name part is cut to the remaining
/// width, highlighted, and wrapped in the line's color.
pub open spec fn spec_line_text(l: LineV, p: Seq<char>, n: int) -> Seq<char> {
    if n < l.first.len() {
        l.first.subrange(0, n)
    } else {
        let cut = if n - l.first.len() > l.last.len() {
            l.last
        } else {
            l.last.subrange(0, n - l.first.len())
        };
        seq![' '] + l.first + l.color + spec_highlight(cut, regex_find(p, cut), 0, 0) + NORMAL@
            + UNINVERT@
    }
}

impl Line {
    /// Draws the line clipped to width `n`, with matches of `re` inside the
    /// name highlighted.
    pub fn to_string(&self, re: &CompiledPattern, n: usize) -> (r: String)
        ensures
            r@ == spec_line_text(line_view(self), re.pattern(), n as int),
    {
        let flen = self.first_part.as_str().unicode_len();
        if n < flen {
            self.first_part.as_str().substring_char(0, n).to_owned()
        } else {
            let rem = n - flen;
            let llen = self.last_part.as_str().unicode_len();
            let cut: String = if rem > llen {
                self.last_part.clone()
            } else {
                self.last_part.as_str().substring_char(0, rem).to_owned()
            };
            let hl = highlight(cut.as_str(), re);
            let mut out = String::new();
            push_char(&mut out, ' ');
            out.append(self.first_part.as_str());
            out.append(self.color.as_str());
            out.append(hl.as_str());
            out.append(NORMAL);
            out.append(UNINVERT);
            proof {
                assert(out@ =~= spec_line_text(line_view(self), re.pattern(), n as int));
            }
            out
        }
    }
}

/// The name a node is displayed under: the final path component, or `.` for
/// a root built from a bare path.
pub open spec fn spec_display_name(n: DirectoryNode) -> Seq<char> {
    match n.name {
        Option::Some(s) => s@,
        Option::None => "."@,
    }
}

/// The inline error text of a node, with its leading separator.
pub open spec fn spec_error_text(n: DirectoryNode) -> Seq<char> {
    match n.error {
        Option::Some(e) => " "@ + e@,
        Option::None => Seq::empty(),
    }
}

/// The connector glyph before a name, chosen from the style and from
/// whether the node is the last visible entry among its siblings.
pub open spec fn spec_connector(style: Style, is_last: bool) -> Seq<char> {
    match style {
        Style::Compact => if is_last {
            "\u{2514}"@
        } else {
            "\u{251c}"@
        },
        Style::Full => if is_last {
            "\u{2514}\u{2500}"@
        } else {
            "\u{251c}\u{2500}"@
        },
    }
}

/// The prefix handed down to a node's children: the node's own prefix
/// extended with a continuation bar, or with blank space below a last
/// sibling.
pub open spec fn spec_child_prefix(prefix: Seq<char>, style: Style, is_last: bool) -> Seq<char> {
    match style {
        Style::Compact => if is_last {
            prefix + " "@
        } else {
            prefix + "\u{2502}"@
        },
        Style::Full => if is_last {
            prefix + "  "@
        } else {
            prefix + "\u{2502} "@
        },
    }
}

/// The index of the last visible child, or 0 when none is visible.
pub open spec fn last_visible_index(kids: Seq<DirectoryNode>) -> int
    decreases kids.len(),
{
    if kids.len() == 0 {
        0
    } else if kids[kids.len() - 1].visible {
        kids.len() - 1
    } else {
        last_visible_index(kids.drop_last())
    }
}

/// The lines a subtree contributes to the frame.  An invisible node is
/// pruned: it and everything below it contribute nothing.  A visible node
/// contributes its own line and then its children's lines in order, each
/// child drawn as "last" exactly when it carries the last visible index.
pub open spec fn spec_flatten(n: DirectoryNode, prefix: Seq<char>, is_last: bool, style: Style) -> Seq<LineV>
    decreases n, 0int,
{
    if !n.visible {
        Seq::empty()
    } else {
        seq![
            LineV {
                first: prefix + spec_connector(style, is_last),
                last: spec_display_name(n) + spec_error_text(n),
                color: color_of(n.category),
            },
        ] + spec_flatten_kids(
            n.children@,
            0,
            spec_child_prefix(prefix, style, is_last),
            last_visible_index(n.children@),
            style,
        )
    }
}

/// The lines of the children from index `i` on.
pub open spec fn spec_flatten_kids(
    kids: Seq<DirectoryNode>,
    i: int,
    prefix: Seq<char>,
    lvi: int,
    style: Style,
) -> Seq<LineV>
    decreases kids, kids.len() - i,
{
    if i < 0 || i >= kids.len() {
        Seq::empty()
    } else {
        spec_flatten(kids[i], prefix, i == lvi, style) + spec_flatten_kids(
            kids,
            i + 1,
            prefix,
            lvi,
            style,
        )
    }
}

/// Flattens the tree depth-first into lines, pruning every subtree whose
/// root is not visible.  `prefix` is the accumulated trail of the node's
/// ancestors; `is_last` tells whether the node is drawn as the last among
/// its visible siblings.
#[verifier::loop_isolation(false)]
pub fn flatten_tree(node: &DirectoryNode, prefix: &str, is_last: bool, style: Style) -> (lines:
    Vec<Line>)
    ensures
        lines@.map_values(|l: Line| line_view(&l)) == spec_flatten(*node, prefix@, is_last, style),
    decreases *node,
{
    let ghost lmap = |l: Line| line_view(&l);
    if !node.visible {
        let lines: Vec<Line> = Vec::new();
        proof {
            assert(lines@.map_values(lmap) =~= spec_flatten(*node, prefix@, is_last, style));
        }
        return lines;
    }
    let file_name: String = match &node.name {
        Some(nm) => nm.clone(),
        None => ".".to_owned(),
    };
    let connector: &str = match style {
        Style::Compact => if is_last {
            "\u{2514}"
        } else {
            "\u{251c}"
        },
        Style::Full => if is_last {
            "\u{2514}\u{2500}"
        } else {
            "\u{251c}\u{2500}"
        },
    };
    let mut first = prefix.to_owned();
    first.append(connector);
    let mut last = file_name;
    match &node.error {
        Some(e) => {
            last.append(" ");
            last.append(e.as_str());
            proof {
                assert(last@ =~= spec_display_name(*node) + spec_error_text(*node));
            }
        },
        None => {
            proof {
                assert(last@ =~= spec_display_name(*node) + spec_error_text(*node));
            }
        },
    }
    let color = determine_color(node.category);
    let mut lines: Vec<Line> = Vec::new();
    lines.push(Line { first_part: first, last_part: last, color });

    let mut child_prefix = prefix.to_owned();
    let cont: &str = match style {
        Style::Compact => if is_last {
            " "
        } else {
            "\u{2502}"
        },
        Style::Full => if is_last {
            "  "
        } else {
            "\u{2502} "
        },
    };
    child_prefix.append(cont);
    proof {
        assert(child_prefix@ == spec_child_prefix(prefix@, style, is_last));
    }

    let n = node.children.len();
    let mut lvi: usize = 0;
    let mut j: usize = 0;
    while j < n
        invariant
            0 <= j <= n,
            lvi as int == last_visible_index(node.children@.take(j as int)),
            lvi <= n,
        decreases n - j,
    {
        proof {
            assert(node.children@.take(j as int + 1).drop_last() =~= node.children@.take(j as int));
            assert(node.children@.take(j as int + 1).last() == node.children@[j as int]);
        }
        if node.children[j].visible {
            lvi = j;
        }
        j += 1;
    }
    proof {
        assert(node.children@.take(n as int) =~= node.children@);
    }

    let mut i: usize = 0;
    while i < n
        invariant
            0 <= i <= n,
            lines@.map_values(lmap) + spec_flatten_kids(
                node.children@,
                i as int,
                child_prefix@,
                lvi as int,
                style,
            ) == spec_flatten(*node, prefix@, is_last, style),
        decreases n - i,
    {
        proof {
            assert(decreases_to!(*node => node.children));
            assert(decreases_to!(node.children => node.children@[i as int]));
        }
        let mut sub = flatten_tree(&node.children[i], child_prefix.as_str(), i == lvi, style);
        let ghost old_lines = lines@;
        let ghost old_sub = sub@;
        lines.append(&mut sub);
        proof {
            assert(lines@.map_values(lmap) =~= old_lines.map_values(lmap) + old_sub.map_values(
                lmap,
            ));
            assert((old_lines.map_values(lmap) + old_sub.map_values(lmap)) + spec_flatten_kids(
                node.children@,
                i + 1,
                child_prefix@,
                lvi as int,
                style,
            ) =~= old_lines.map_values(lmap) + (old_sub.map_values(lmap) + spec_flatten_kids(
                node.children@,
                i + 1,
                child_prefix@,
                lvi as int,
                style,
            )));
        }
        i += 1;
    }
    proof {
        assert(spec_flatten_kids(node.children@, n as int, child_prefix@, lvi as int, style)
            =~= Seq::<LineV>::empty());
        assert(lines@.map_values(lmap) + Seq::<LineV>::empty() =~= lines@.map_values(lmap));
    }
    lines
}

/// The text of `count` viewport rows, starting at line `from`: each row is a
/// width-filling blank (erasing stale content), a carriage return, the
/// clipped line if one exists at that position, and a line break.
pub open spec fn spec_rows(
    lines: Seq<LineV>,
    p: Seq<char>,
    width: int,
    count: int,
    from: int,
) -> Seq<char>
    decreases count,
{
    if count <= 0 {
        Seq::empty()
    } else {
        spec_spaces(width) + "\r"@ + (if 0 <= from < lines.len() {
            spec_line_text(lines[from], p, width)
        } else {
            Seq::empty()
        }) + "\r\n"@ + spec_rows(lines, p, width, count - 1, from + 1)
    }
}

/// Draws the window of `max_height` rows starting at `scroll`, each line
/// clipped to `max_width`, with blank rows below the last line.
#[verifier::loop_isolation(false)]
pub fn render_tree(
    tree: &Vec<Line>,
    max_width: usize,
    max_height: usize,
    scroll: usize,
    re: &CompiledPattern,
) -> (r: String)
    requires
        scroll <= tree@.len(),
    ensures
        r@ == spec_rows(
            tree@.map_values(|l: Line| line_view(&l)),
            re.pattern(),
            max_width as int,
            max_height as int,
            scroll as int,
        ),
{
    let ghost lmap = |l: Line| line_view(&l);
    let ghost lv = tree@.map_values(lmap);
    let blank = spaces(max_width);
    let mut out = String::new();
    let mut row: usize = 0;
    while row < max_height
        invariant
            0 <= row <= max_height,
            out@ + spec_rows(lv, re.pattern(), max_width as int, max_height - row, scroll + row)
                == spec_rows(lv, re.pattern(), max_width as int, max_height as int, scroll as int),
        decreases max_height - row,
    {
        let ghost pre = out@;
        out.append(blank.as_str());
        out.append("\r");
        let ghost rowtext: Seq<char> = if 0 <= scroll + row < lv.len() {
            spec_line_text(lv[scroll + row], re.pattern(), max_width as int)
        } else {
            Seq::empty()
        };
        if row < tree.len() - scroll {
            let text = tree[scroll + row].to_string(re, max_width);
            proof {
                assert(lv[scroll + row] == line_view(&tree@[scroll + row]));
            }
            out.append(text.as_str());
        }
        out.append("\r\n");
        proof {
            assert(out@ =~= pre + (spec_spaces(max_width as int) + "\r"@ + rowtext + "\r\n"@));
            assert(spec_rows(lv, re.pattern(), max_width as int, max_height - row, scroll + row)
                == (spec_spaces(max_width as int) + "\r"@ + rowtext + "\r\n"@) + spec_rows(
                lv,
                re.pattern(),
                max_width as int,
                max_height - row - 1,
                scroll + row + 1,
            ));
            assert(out@ + spec_rows(
                lv,
                re.pattern(),
                max_width as int,
                max_height - row - 1,
                scroll + row + 1,
            ) =~= pre + spec_rows(
                lv,
                re.pattern(),
                max_width as int,
                max_height - row,
                scroll + row,
            ));
        }
        row += 1;
    }
    proof {
        assert(out@ + spec_rows(lv, re.pattern(), max_width as int, 0, scroll + max_height) =~= out@);
    }
    out
}

/// The dump of the pattern's bytes, one `0x..` group per byte.
pub open spec fn spec_hex_dump(bytes: Seq<u8>) -> Seq<char>
    decreases bytes.len(),
{
    if bytes.len() == 0 {
        Seq::empty()
    } else {
        spec_hex_dump(bytes.drop_last()) + spec_hex_byte(bytes.last())
    }
}

/// The three bottom rows: the byte dump of the pattern with an invalidity
/// notice before it, the pattern box itself, and the help hint, each padded
/// or cut to the terminal width.
pub open spec fn spec_render_input(pattern: &str, pattern_is_valid: bool, width: int) -> Seq<char> {
    spec_fixed_length(
        (if pattern_is_valid {
            Seq::<char>::empty()
        } else {
            "Invalid Pattern "@
        }) + spec_hex_dump(pattern.spec_bytes()),
        width,
    ) + "\r\n"@ + spec_fixed_length("Pattern: "@ + pattern@, width) + "\r\n"@ + spec_fixed_length(
        "Ctrl+D to exit"@,
        width,
    )
}

/// Draws the bottom status rows: the byte dump (with the invalid-pattern
/// notice when the current pattern did not compile), the pattern box, and
/// the help hint.
#[verifier::loop_isolation(false)]
pub fn render_input(pattern: &str, pattern_is_valid: bool, width: usize) -> (r: String)
    ensures
        r@ == spec_render_input(pattern, pattern_is_valid, width as int),
{
    let mut hex = String::new();
    if !pattern_is_valid {
        hex.append("Invalid Pattern ");
    }
    let bytes = pattern.as_bytes_vec();
    let ghost notice: Seq<char> = if pattern_is_valid {
        Seq::<char>::empty()
    } else {
        "Invalid Pattern "@
    };
    let mut i: usize = 0;
    while i < bytes.len()
        invariant
            0 <= i <= bytes@.len(),
            bytes@ == pattern.spec_bytes(),
            hex@ == notice + spec_hex_dump(bytes@.take(i as int)),
        decreases bytes@.len() - i,
    {
        append_hex_byte(&mut hex, bytes[i]);
        proof {
            assert(bytes@.take(i + 1).drop_last() =~= bytes@.take(i as int));
            assert(bytes@.take(i + 1).last() == bytes@[i as int]);
            assert(hex@ =~= notice + spec_hex_dump(bytes@.take(i + 1)));
        }
        i += 1;
    }
    proof {
        assert(bytes@.take(bytes@.len() as int) =~= bytes@);
        assert(notice + spec_hex_dump(Seq::<u8>::empty()) =~= notice);
    }
    let mut out = fixed_length_string(hex.as_str(), width);
    out.append("\r\n");
    let mut middle = "Pattern: ".to_owned();
    middle.append(pattern);
    let mid = fixed_length_string(middle.as_str(), width);
    out.append(mid.as_str());
    out.append("\r\n");
    let hint = fixed_length_string("Ctrl+D to exit", width);
    out.append(hint.as_str());
    proof {
        assert(out@ =~= spec_render_input(pattern, pattern_is_valid, width as int));
    }
    out
}

/// The escape sequence that puts the terminal cursor at column `x` of row
/// `y` (both counted from 1).
pub open spec fn spec_set_cursor(x: int, y: int) -> Seq<char> {
    "\x1B["@ + spec_decimal(y as nat) + ";"@ + spec_decimal(x as nat) + "H"@
}

/// Writes the cursor-positioning sequence for column `x`, row `y`.
pub fn set_cursor_position(x: usize, y: usize) -> (r: String)
    ensures
        r@ == spec_set_cursor(x as int, y as int),
{
    let mut out = "\x1B[".to_owned();
    let ys = decimal_string(y);
    out.append(ys.as_str());
    out.append(";");
    let xs = decimal_string(x);
    out.append(xs.as_str());
    out.append("H");
    proof {
        assert(out@ =~= spec_set_cursor(x as int, y as int));
    }
    out
}

/// A scroll position at or past the number of visible lines is pulled back
/// to the last valid index (or to 0 when nothing is visible); a smaller one
/// is kept.
pub open spec fn spec_clamp_scroll(scroll: int, total: int) -> int {
    if scroll >= total {
        if total == 0 {
            0
        } else {
            total - 1
        }
    } else {
        scroll
    }
}

/// One whole frame: home the cursor, draw the windowed tree, then the three
/// status rows, then park the terminal cursor at the edit position inside
/// the pattern box.  `scroll` must already be clamped.
pub open spec fn spec_frame(
    tree: DirectoryNode,
    pattern: &str,
    style: Style,
    scroll: int,
    cursor_pos: int,
    p: Seq<char>,
    pattern_is_valid: bool,
    width: int,
    height: int,
) -> Seq<char> {
    spec_set_cursor(1, 1) + spec_rows(
        spec_flatten(tree, ""@, true, style),
        p,
        width,
        height - 3,
        scroll,
    ) + "\r\n"@ + spec_set_cursor(1, height - 2) + spec_render_input(
        pattern,
        pattern_is_valid,
        width,
    ) + spec_set_cursor(cursor_pos + 10, height - 1)
}

/// Renders one frame of `width` by `height` character cells and returns it
/// as the text to write to the terminal.  The scroll position is clamped
/// against the number of visible lines first, so a keystroke that shrinks
/// the match set can never leave the window past the end.
pub fn render(
    directory_tree: &DirectoryNode,
    pattern: &str,
    style: Style,
    scroll: &mut usize,
    cursor_pos: usize,
    re: &CompiledPattern,
    pattern_is_valid: bool,
    width: usize,
    height: usize,
) -> (frame: String)
    requires
        3 <= height,
        cursor_pos + 10 <= usize::MAX,
    ensures
        *final(scroll) as int == spec_clamp_scroll(
            *old(scroll) as int,
            spec_flatten(*directory_tree, ""@, true, style).len() as int,
        ),
        *final(scroll) <= *old(scroll),
        frame@ == spec_frame(
            *directory_tree,
            pattern,
            style,
            *final(scroll) as int,
            cursor_pos as int,
            re.pattern(),
            pattern_is_valid,
            width as int,
            height as int,
        ),
{
    let lines = flatten_tree(directory_tree, "", true, style);
    proof {
        assert(lines@.map_values(|l: Line| line_view(&l)).len() == lines@.len());
    }
    if *scroll >= lines.len() {
        *scroll = if lines.len() == 0 {
            0
        } else {
            lines.len() - 1
        };
    }
    let mut frame = set_cursor_position(1, 1);
    let body = render_tree(&lines, width, height - 3, *scroll, re);
    frame.append(body.as_str());
    frame.append("\r\n");
    let pos_input = set_cursor_position(1, height - 2);
    frame.append(pos_input.as_str());
    let status = render_input(pattern, pattern_is_valid, width);
    frame.append(status.as_str());
    let pos_cursor = set_cursor_position(cursor_pos + 10, height - 1);
    frame.append(pos_cursor.as_str());
    proof {
        assert(frame@ =~= spec_frame(
            *directory_tree,
            pattern,
            style,
            *scroll as int,
            cursor_pos as int,
            re.pattern(),
            pattern_is_valid,
            width as int,
            height as int,
        ));
    }
    frame
}

/// No line is ever emitted for a pruned node: an invisible subtree's root
/// contributes nothing to the frame, and since its descendants' lines could
/// only appear inside its own block, none of them is emitted either.
pub proof fn lemma_pruned_subtree_emits_nothing(
    n: DirectoryNode,
    prefix: Seq<char>,
    is_last: bool,
    style: Style,
)
    requires
        !n.visible,
    ensures
        spec_flatten(n, prefix, is_last, style) == Seq::<LineV>::empty(),
{
}

/// The index the renderer treats as "last" among a node's children is the
/// greatest index of a visible child, however many invisible siblings
/// follow it.
pub proof fn lemma_last_visible_index(kids: Seq<DirectoryNode>, i: int)
    requires
        0 <= i < kids.len(),
        kids[i].visible,
        forall|j: int| i < j < kids.len() ==> !(#[trigger] kids[j]).visible,
    ensures
        last_visible_index(kids) == i,
    decreases kids.len(),
{
    if i == kids.len() - 1 {
    } else {
        assert(!kids[kids.len() - 1].visible);
        assert(kids.drop_last()[i] == kids[i]);
        assert(forall|j: int|
            i < j < kids.drop_last().len() ==> !(#[trigger] kids.drop_last()[j]).visible);
        lemma_last_visible_index(kids.drop_last(), i);
    }
}

/// The last visible sibling always renders the "last" connector glyph,
/// regardless of how many pruned siblings follow it: the flag the renderer
/// hands child `i` is `i == last_visible_index(..)`, and with every later
/// sibling invisible that flag is true, so the child's first line begins
/// with the closing connector.
pub proof fn lemma_last_visible_sibling_connector(
    kids: Seq<DirectoryNode>,
    i: int,
    prefix: Seq<char>,
    style: Style,
)
    requires
        0 <= i < kids.len(),
        kids[i].visible,
        forall|j: int| i < j < kids.len() ==> !(#[trigger] kids[j]).visible,
    ensures
        spec_flatten(kids[i], prefix, i == last_visible_index(kids), style)[0].first == prefix
            + spec_connector(style, true),
{
    lemma_last_visible_index(kids, i);
    assert(spec_flatten(kids[i], prefix, true, style)[0].first == prefix + spec_connector(
        style,
        true,
    ));
}

/// Rendering twice with unchanged state yields an identical frame: the
/// clamp is idempotent, so the scroll position the first frame leaves
/// behind renders the second frame from exactly the same state.
pub proof fn lemma_render_idempotent(
    tree: DirectoryNode,
    pattern: &str,
    style: Style,
    scroll: int,
    cursor_pos: int,
    p: Seq<char>,
    pattern_is_valid: bool,
    width: int,
    height: int,
)
    ensures
        spec_frame(
            tree,
            pattern,
            style,
            spec_clamp_scroll(
                spec_clamp_scroll(scroll, spec_flatten(tree, ""@, true, style).len() as int),
                spec_flatten(tree, ""@, true, style).len() as int,
            ),
            cursor_pos,
            p,
            pattern_is_valid,
            width,
            height,
        ) == spec_frame(
            tree,
            pattern,
            style,
            spec_clamp_scroll(scroll, spec_flatten(tree, ""@, true, style).len() as int),
            cursor_pos,
            p,
            pattern_is_valid,
            width,
            height,
        ),
{
    let total = spec_flatten(tree, ""@, true, style).len() as int;
    assert(spec_clamp_scroll(spec_clamp_scroll(scroll, total), total) == spec_clamp_scroll(
        scroll,
        total,
    ));
}

} // verus!
