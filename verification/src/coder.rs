//! The structured code emitter: a tree of lines, blocks and comments that is
//! built by appending and rendered in one depth-first pass.

use crate::text::{
    append_chars, ends_with, from_chars, is_whitespace, join_lines, leading_whitespace, lines,
    count_leading_whitespace, slice_chars, split_lines, starts_with, to_chars, trim, trim_chars,
    views, lemma_leading_whitespace_bounds,
};
use vstd::prelude::*;
use vstd::string::StringExecFns;

verus! {

/// One node of the emitted text tree, as a mathematical value.
pub enum Node {
    /// One line of text.
    Line(Seq<char>),
    /// A header and the nodes nested under it.
    Block(Seq<char>, Seq<Node>),
    /// The text of a comment, without its markers.
    Comment(Seq<char>),
}

/// One node of the emitted text tree.
#[derive(Debug)]
pub enum Chunk {
    Line(String),
    Block(String, Vec<Chunk>),
    Comment(String),
}

/// The nodes that a list of chunks stands for.
pub open spec fn view_chunks(units: Seq<Chunk>) -> Seq<Node>
    decreases units, 1int,
{
    Seq::new(
        units.len(),
        |i: int|
            if 0 <= i < units.len() {
                view_chunk(units[i])
            } else {
                Node::Line(Seq::empty())
            },
    )
}

/// The node that a chunk stands for.
pub open spec fn view_chunk(chunk: Chunk) -> Node
    decreases chunk, 0int,
{
    match chunk {
        Chunk::Line(src) => Node::Line(src@),
        Chunk::Block(src, units) => Node::Block(src@, view_chunks(units@)),
        Chunk::Comment(src) => Node::Comment(src@),
    }
}

impl Clone for Chunk {
    fn clone(&self) -> (copy: Chunk)
        ensures
            copy@ == self@,
        decreases self,
    {
        match self {
            Chunk::Line(src) => Chunk::Line(src.clone()),
            Chunk::Block(src, units) => {
                let mut copies: Vec<Chunk> = Vec::new();
                let mut i: usize = 0;
                while i < units.len()
                    invariant
                        i <= units.len(),
                        self matches Chunk::Block(_, held) && held == units,
                        view_chunks(copies@) == view_chunks(units@).take(i as int),
                    decreases units.len() - i,
                {
                    let ghost before = copies@;
                    let copy = units[i].clone();
                    copies.push(copy);
                    assert(view_chunks(copies@) == view_chunks(before).push(copy@));
                    i += 1;
                }
                assert(view_chunks(units@).take(units.len() as int) == view_chunks(units@));
                Chunk::Block(src.clone(), copies)
            },
            Chunk::Comment(src) => Chunk::Comment(src.clone()),
        }
    }
}

impl View for Chunk {
    type V = Node;

    open spec fn view(&self) -> Node {
        view_chunk(*self)
    }
}

/// The indentation of one nesting level.
pub open spec fn indent_step() -> Seq<char> {
    seq![' ', ' ', ' ', ' ']
}

/// The indentation at nesting depth `level`: four spaces for each level.
pub open spec fn indentation(level: nat) -> Seq<char> {
    Seq::new(4 * level, |i: int| ' ')
}

/// The continuation lines of a comment, each behind the indentation and one
/// more space, which puts it under the opening marker's asterisk.
pub open spec fn render_continuation(ls: Seq<Seq<char>>, indent: Seq<char>) -> Seq<char>
    decreases ls.len(),
{
    if ls.len() == 0 {
        Seq::empty()
    } else {
        render_continuation(ls.drop_last(), indent) + indent + seq![' '] + ls.last() + seq!['\n']
    }
}

/// A comment as block comment: the opening marker directly followed by the
/// first line, the continuation lines, and the closing marker on a line of
/// its own.
pub open spec fn render_comment(src: Seq<char>, indent: Seq<char>) -> Seq<char> {
    let ls = lines(src);
    let body = if ls.len() == 0 {
        Seq::empty()
    } else {
        ls[0] + seq!['\n'] + render_continuation(ls.skip(1), indent)
    };
    indent + seq!['/', '*'] + body + indent + seq![' ', '*', '/', '\n']
}

/// The text of a list of nodes, one after the other, behind `indent`.
pub open spec fn render_nodes(nodes: Seq<Node>, indent: Seq<char>) -> Seq<char>
    decreases nodes, 1int,
{
    if nodes.len() == 0 {
        Seq::empty()
    } else {
        render_nodes(nodes.drop_last(), indent) + render_node(nodes.last(), indent)
    }
}

/// The text of one node behind `indent`. A block without nodes is its
/// header and `{}` on one line; any other block is its header and `{`,
/// its nodes one step deeper, and `}` under the header.
pub open spec fn render_node(node: Node, indent: Seq<char>) -> Seq<char>
    decreases node, 0int,
{
    match node {
        Node::Line(src) => indent + src + seq!['\n'],
        Node::Block(src, body) => if body.len() == 0 {
            indent + src + seq![' ', '{', '}', '\n']
        } else {
            indent + src + seq![' ', '{', '\n'] + render_nodes(body, indent + indent_step())
                + indent + seq!['}', '\n']
        },
        Node::Comment(src) => render_comment(src, indent),
    }
}

/// `s` without the markers of a line comment or of a block comment.
pub open spec fn strip_markers(s: Seq<char>) -> Seq<char> {
    if seq!['/', '/'].is_prefix_of(s) {
        s.skip(2)
    } else if seq!['/', '*'].is_prefix_of(s) && seq!['*', '/'].is_suffix_of(s) && s.len() > 3 {
        s.subrange(2, s.len() - 2)
    } else {
        s
    }
}

/// The least number of leading whitespace characters over the lines `ls`,
/// and 0 where there is no line.
pub open spec fn min_indent(ls: Seq<Seq<char>>) -> nat
    decreases ls.len(),
{
    if ls.len() == 0 {
        0
    } else if ls.len() == 1 {
        leading_whitespace(ls[0])
    } else {
        let before = min_indent(ls.drop_last());
        let here = leading_whitespace(ls.last());
        if here < before {
            here
        } else {
            before
        }
    }
}

/// The lines after the first.
pub open spec fn continuation(ls: Seq<Seq<char>>) -> Seq<Seq<char>> {
    if ls.len() == 0 {
        ls
    } else {
        ls.skip(1)
    }
}

/// The lines `ls` with the common indentation of all lines after the first
/// taken off each of those; the first line stays as it is.
pub open spec fn dedent(ls: Seq<Seq<char>>) -> Seq<Seq<char>> {
    let width = min_indent(continuation(ls));
    Seq::new(
        ls.len(),
        |i: int|
            if i == 0 {
                ls[i]
            } else {
                ls[i].skip(width as int)
            },
    )
}

/// A comment body with its continuation lines brought to their common
/// indentation. A body of one line stays as it is.
pub open spec fn reflow(body: Seq<char>) -> Seq<char> {
    if body.contains('\n') {
        join_lines(dedent(lines(body)))
    } else {
        body
    }
}

/// The text that a comment chunk holds for the source comment `src`: the
/// markers and the whitespace around them are gone, and the continuation
/// lines are reflowed.
pub open spec fn unroll(src: Seq<char>) -> Seq<char> {
    reflow(trim(strip_markers(trim(src))))
}

/// No line has less leading whitespace than the minimum, and some line has
/// exactly that much.
pub proof fn lemma_min_indent(ls: Seq<Seq<char>>)
    ensures
        forall|i: int| 0 <= i < ls.len() ==> min_indent(ls) <= leading_whitespace(#[trigger] ls[i]),
        ls.len() > 0 ==> exists|i: int|
            0 <= i < ls.len() && leading_whitespace(#[trigger] ls[i]) == min_indent(ls),
    decreases ls.len(),
{
    if ls.len() > 1 {
        let front = ls.drop_last();
        lemma_min_indent(front);
        assert forall|i: int| 0 <= i < ls.len() implies min_indent(ls) <= leading_whitespace(
            #[trigger] ls[i],
        ) by {
            if i < front.len() {
                assert(front[i] == ls[i]);
            }
        }
        let k = choose|i: int|
            0 <= i < front.len() && leading_whitespace(#[trigger] front[i]) == min_indent(front);
        assert(front[k] == ls[k]);
        if leading_whitespace(ls.last()) < min_indent(front) {
            assert(leading_whitespace(ls[ls.len() - 1]) == min_indent(ls));
        } else {
            assert(leading_whitespace(ls[k]) == min_indent(ls));
        }
    } else if ls.len() == 1 {
        assert(leading_whitespace(ls[0]) == min_indent(ls));
    }
}

/// A block without nodes renders on one line: the header and an empty pair
/// of braces behind it, whatever the header and the indentation are.
pub proof fn lemma_empty_block_is_one_line(header: Seq<char>, indent: Seq<char>)
    ensures
        render_node(Node::Block(header, Seq::empty()), indent) == indent + header + seq![
            ' ',
            '{',
            '}',
            '\n',
        ],
{
}

/// Every node renders to some text, so a block that holds nodes never
/// shows an opening brace with nothing between it and the closing one.
pub proof fn lemma_render_is_never_empty(nodes: Seq<Node>, indent: Seq<char>)
    requires
        nodes.len() > 0,
    ensures
        render_node(nodes.last(), indent).len() > 0,
        render_nodes(nodes, indent).len() > 0,
{
    assert(render_nodes(nodes, indent) == render_nodes(nodes.drop_last(), indent) + render_node(
        nodes.last(),
        indent,
    ));
}

/// Each nesting level indents by four more spaces.
pub proof fn lemma_indentation_step(level: nat)
    ensures
        indentation(level).len() == 4 * level,
        indentation(level + 1) == indentation(level) + indent_step(),
{
    assert(indentation(level + 1) =~= indentation(level) + indent_step());
}

/// Whitespace taken off the front of a line comes off its leading
/// whitespace.
pub proof fn lemma_leading_whitespace_skip(line: Seq<char>, width: nat)
    requires
        width <= leading_whitespace(line),
    ensures
        leading_whitespace(line.skip(width as int)) == leading_whitespace(line) - width,
{
    lemma_leading_whitespace_bounds(line);
    let rest = line.skip(width as int);
    let n = leading_whitespace(line) - width;
    assert forall|i: int| 0 <= i < n implies is_whitespace(#[trigger] rest[i]) by {
        assert(rest[i] == line[i + width]);
    }
    if n < rest.len() {
        assert(rest[n] == line[leading_whitespace(line) as int]);
    }
    crate::text::lemma_leading_whitespace(rest, n);
}

/// Reflowing keeps the number of lines and never alters the first line. It
/// takes the same number of characters, all of them whitespace, off every
/// continuation line, and that number is their common indentation: where
/// there is a continuation line, one of them begins without whitespace
/// afterwards.
pub proof fn lemma_dedent(ls: Seq<Seq<char>>)
    requires
        ls.len() > 0,
    ensures
        dedent(ls).len() == ls.len(),
        dedent(ls)[0] == ls[0],
        forall|i: int|
            1 <= i < ls.len() ==> {
                &&& min_indent(continuation(ls)) <= leading_whitespace(#[trigger] ls[i])
                &&& dedent(ls)[i] == ls[i].skip(min_indent(continuation(ls)) as int)
                &&& leading_whitespace(dedent(ls)[i]) == leading_whitespace(ls[i]) - min_indent(
                    continuation(ls),
                )
            },
        ls.len() > 1 ==> min_indent(continuation(dedent(ls))) == 0,
{
    let rest = continuation(ls);
    let width = min_indent(rest);
    lemma_min_indent(rest);
    assert forall|i: int| 1 <= i < ls.len() implies {
        &&& width <= leading_whitespace(#[trigger] ls[i])
        &&& dedent(ls)[i] == ls[i].skip(width as int)
        &&& leading_whitespace(dedent(ls)[i]) == leading_whitespace(ls[i]) - width
    } by {
        assert(rest[i - 1] == ls[i]);
        lemma_leading_whitespace_skip(ls[i], width);
    }
    if ls.len() > 1 {
        let after = continuation(dedent(ls));
        lemma_min_indent(after);
        let k = choose|k: int| 0 <= k < rest.len() && leading_whitespace(#[trigger] rest[k]) == width;
        assert(rest[k] == ls[k + 1]);
        assert(after[k] == dedent(ls)[k + 1]);
        assert(leading_whitespace(after[k]) == 0);
    }
}

/// Whether `v` holds a line feed.
fn has_line_feed(v: &Vec<char>) -> (b: bool)
    ensures
        b == v@.contains('\n'),
{
    let mut i: usize = 0;
    while i < v.len()
        invariant
            i <= v.len(),
            forall|k: int| 0 <= k < i ==> v@[k] != '\n',
        decreases v.len() - i,
    {
        if v[i] == '\n' {
            return true;
        }
        i += 1;
    }
    false
}

/// The least number of leading whitespace characters over the lines from
/// the second on.
fn continuation_indent(ls: &Vec<Vec<char>>) -> (width: usize)
    ensures
        width == min_indent(continuation(views(ls@))),
{
    if ls.len() < 2 {
        assert(continuation(views(ls@)).len() == 0);
        return 0;
    }
    let ghost rest = views(ls@).skip(1);
    let mut width = count_leading_whitespace(&ls[1]);
    assert(rest.take(1).len() == 1);
    assert(rest.take(1)[0] == ls@[1]@);
    let mut i: usize = 2;
    while i < ls.len()
        invariant
            2 <= i <= ls.len(),
            rest == views(ls@).skip(1),
            width == min_indent(rest.take(i - 1)),
        decreases ls.len() - i,
    {
        let here = count_leading_whitespace(&ls[i]);
        proof {
            let upto = rest.take(i as int);
            assert(upto.drop_last() == rest.take(i - 1));
            assert(upto.last() == ls@[i as int]@);
        }
        if here < width {
            width = here;
        }
        i += 1;
    }
    assert(rest.take(ls.len() - 1) == rest);
    width
}

/// Brings the continuation lines of a comment body to their common
/// indentation.
fn reflow_chars(body: Vec<char>) -> (r: Vec<char>)
    ensures
        r@ == reflow(body@),
{
    if !has_line_feed(&body) {
        return body;
    }
    let ls = split_lines(&body);
    let width = continuation_indent(&ls);
    let ghost target = dedent(views(ls@));
    let mut out: Vec<char> = Vec::new();
    let mut i: usize = 0;
    while i < ls.len()
        invariant
            i <= ls.len(),
            target == dedent(views(ls@)),
            width == min_indent(continuation(views(ls@))),
            out@ == join_lines(target.take(i as int)),
        decreases ls.len() - i,
    {
        let line = &ls[i];
        proof {
            let upto = target.take(i + 1);
            assert(upto.drop_last() == target.take(i as int));
            assert(upto.last() == target[i as int]);
            if i > 0 {
                lemma_min_indent(continuation(views(ls@)));
                assert(continuation(views(ls@))[i - 1] == line@);
                lemma_leading_whitespace_bounds(line@);
            }
        }
        if i > 0 {
            out.push('\n');
            let mut piece = slice_chars(line, width, line.len());
            assert(piece@ == line@.skip(width as int));
            out.append(&mut piece);
        } else {
            let mut piece = slice_chars(line, 0, line.len());
            assert(piece@ == line@);
            out.append(&mut piece);
        }
        i += 1;
    }
    assert(target.take(ls.len() as int) == target);
    out
}

/// Unwraps a source comment: takes off the markers of a line comment or of
/// a block comment and the whitespace around them, and reflows the lines.
pub fn unroll_comment(src: &str) -> (r: String)
    ensures
        r@ == unroll(src@),
{
    let all = to_chars(src);
    let outer = trim_chars(&all);
    let line_marker: Vec<char> = vec!['/', '/'];
    let open_marker: Vec<char> = vec!['/', '*'];
    let close_marker: Vec<char> = vec!['*', '/'];
    assert(line_marker@ == seq!['/', '/']);
    assert(open_marker@ == seq!['/', '*']);
    assert(close_marker@ == seq!['*', '/']);
    let inner = if starts_with(&outer, &line_marker) {
        let inner = slice_chars(&outer, 2, outer.len());
        assert(inner@ == outer@.skip(2));
        inner
    } else if starts_with(&outer, &open_marker) && ends_with(&outer, &close_marker) && outer.len()
        > 3 {
        slice_chars(&outer, 2, outer.len() - 2)
    } else {
        outer
    };
    let body = trim_chars(&inner);
    let reflowed = reflow_chars(body);
    from_chars(&reflowed)
}

/// Appends the text of a comment to `out`.
fn write_comment(src: &str, out: &mut String, indent: &str)
    ensures
        final(out)@ == old(out)@ + render_comment(src@, indent@),
{
    proof {
        reveal_strlit("/*");
        reveal_strlit(" ");
        reveal_strlit("\n");
        reveal_strlit(" */\n");
    }
    let all = to_chars(src);
    let ls = split_lines(&all);
    let ghost rest = views(ls@).skip(1);
    out.append(indent);
    out.append("/*");
    if ls.len() > 0 {
        append_chars(out, &ls[0]);
        out.append("\n");
        let ghost head = out@;
        let mut i: usize = 1;
        assert(rest.take(0).len() == 0);
        while i < ls.len()
            invariant
                1 <= i <= ls.len(),
                rest == views(ls@).skip(1),
                out@ == head + render_continuation(rest.take(i - 1), indent@),
                " "@ == seq![' '],
                "\n"@ == seq!['\n'],
            decreases ls.len() - i,
        {
            proof {
                let upto = rest.take(i as int);
                assert(upto.drop_last() == rest.take(i - 1));
                assert(upto.last() == ls@[i as int]@);
            }
            out.append(indent);
            out.append(" ");
            append_chars(out, &ls[i]);
            out.append("\n");
            i += 1;
        }
        assert(rest.take(ls.len() - 1) == rest);
        assert(views(ls@)[0] == ls@[0]@);
    }
    out.append(indent);
    out.append(" */\n");
    assert(" */\n"@ == seq![' ', '*', '/', '\n']);
    assert("/*"@ == seq!['/', '*']);
}

impl Chunk {
    /// Appends the text of this chunk to `out`, behind `indent`.
    pub fn write(&self, out: &mut String, indent: &str)
        ensures
            final(out)@ == old(out)@ + render_node(self@, indent@),
        decreases self, 0int,
    {
        proof {
            reveal_strlit("\n");
            reveal_strlit(" {}\n");
            reveal_strlit(" {\n");
            reveal_strlit("}\n");
            reveal_strlit("    ");
        }
        match self {
            Chunk::Line(src) => {
                out.append(indent);
                out.append(src.as_str());
                out.append("\n");
                assert("\n"@ == seq!['\n']);
            },
            Chunk::Block(src, units) => {
                if units.len() == 0 {
                    out.append(indent);
                    out.append(src.as_str());
                    out.append(" {}\n");
                    assert(" {}\n"@ == seq![' ', '{', '}', '\n']);
                } else {
                    out.append(indent);
                    out.append(src.as_str());
                    out.append(" {\n");
                    let mut deeper = String::from_str(indent);
                    deeper.append("    ");
                    assert("    "@ == indent_step());
                    write_chunks(units, out, deeper.as_str());
                    out.append(indent);
                    out.append("}\n");
                    assert(" {\n"@ == seq![' ', '{', '\n']);
                    assert("}\n"@ == seq!['}', '\n']);
                }
            },
            Chunk::Comment(src) => {
                write_comment(src.as_str(), out, indent);
            },
        }
    }

    /// Appends the text of this chunk to `out` at nesting depth `l`.
    pub fn format(&self, out: &mut String, l: usize)
        ensures
            final(out)@ == old(out)@ + render_node(self@, indentation(l as nat)),
    {
        let indent = indent_of(l);
        self.write(out, indent.as_str());
    }
}

/// Appends the text of the chunks `units` to `out`, behind `indent`.
pub fn write_chunks(units: &Vec<Chunk>, out: &mut String, indent: &str)
    ensures
        final(out)@ == old(out)@ + render_nodes(view_chunks(units@), indent@),
    decreases units, 1int,
{
    let ghost nodes = view_chunks(units@);
    let mut i: usize = 0;
    assert(nodes.take(0).len() == 0);
    while i < units.len()
        invariant
            i <= units.len(),
            nodes == view_chunks(units@),
            out@ == old(out)@ + render_nodes(nodes.take(i as int), indent@),
        decreases units.len() - i,
    {
        proof {
            let upto = nodes.take(i + 1);
            assert(upto.drop_last() == nodes.take(i as int));
            assert(upto.last() == units@[i as int]@);
        }
        units[i].write(out, indent);
        i += 1;
    }
    assert(nodes.take(units.len() as int) == nodes);
}

/// The indentation at nesting depth `l`.
pub fn indent_of(l: usize) -> (indent: String)
    ensures
        indent@ == indentation(l as nat),
{
    proof {
        reveal_strlit("    ");
    }
    let mut indent = String::new();
    let mut i: usize = 0;
    assert(indent@ == indentation(0));
    while i < l
        invariant
            i <= l,
            indent@ == indentation(i as nat),
            "    "@ == indent_step(),
        decreases l - i,
    {
        indent.append("    ");
        assert(indent@ == indentation((i + 1) as nat));
        i += 1;
    }
    indent
}

/// A code emitter: an ordered list of chunks that only grows.
#[derive(Debug, Clone)]
pub struct Coder {
    units: Vec<Chunk>,
}

impl View for Coder {
    type V = Seq<Node>;

    closed spec fn view(&self) -> Seq<Node> {
        view_chunks(self.units@)
    }
}

impl Default for Coder {
    fn default() -> (coder: Coder)
        ensures
            coder@ == Seq::<Node>::empty(),
    {
        Coder::new()
    }
}

impl Coder {
    /// An emitter without chunks.
    pub fn new() -> (coder: Coder)
        ensures
            coder@ == Seq::<Node>::empty(),
    {
        Coder { units: Vec::new() }
    }

    /// Appends the line `src`.
    pub fn line(&mut self, src: &str)
        ensures
            final(self)@ == old(self)@.push(Node::Line(src@)),
    {
        self.units.push(Chunk::Line(String::from_str(src)));
    }

    /// Appends a block with the header `src`. The builder `blk` is run once,
    /// on a fresh emitter, and what it leaves there is the block's body.
    pub fn block<F: FnOnce(&mut Coder)>(&mut self, src: &str, blk: F)
        requires
            forall|body: &mut Coder| body@.len() == 0 ==> #[trigger] call_requires(blk, (body,)),
        ensures
            exists|body: &mut Coder|
                body@.len() == 0 && #[trigger] call_ensures(blk, (body,), ()) && final(self)@
                    == old(self)@.push(Node::Block(src@, final(body)@)),
    {
        let mut cg = Coder::new();
        blk(&mut cg);
        self.units.push(Chunk::Block(String::from_str(src), cg.units));
    }

    /// Appends the source comment `src`, unwrapped and reflowed.
    pub fn comment(&mut self, src: &str)
        ensures
            final(self)@ == old(self)@.push(Node::Comment(unroll(src@))),
    {
        self.units.push(Chunk::Comment(unroll_comment(src)));
    }

    /// Appends the text of all chunks to `out` at nesting depth `l`.
    pub fn format(&self, out: &mut String, l: usize)
        ensures
            final(out)@ == old(out)@ + render_nodes(self@, indentation(l as nat)),
    {
        let indent = indent_of(l);
        write_chunks(&self.units, out, indent.as_str());
    }

    /// The text of all chunks at nesting depth 0.
    pub fn render(&self) -> (text: String)
        ensures
            text@ == render_nodes(self@, indentation(0)),
    {
        let mut text = String::new();
        self.format(&mut text, 0);
        text
    }
}

} // verus!
