//! Layout of help text: paragraphs refilled to a width, and aligned lists of
//! arguments with wrapped descriptions. The wrapping itself is textwrap's.
use crate::common::server_command::strings_view;
use crate::common::text::{join_lines, join_with_newlines, push_char};
use vstd::prelude::*;
use vstd::string::*;
use vstd::utf8::*;

verus! {

broadcast use vstd::seq::group_seq_axioms;

/// What `textwrap::wrap` gives for a text, a width and the indent of every
/// line but the first.
pub uninterp spec fn wrapped(text: Seq<char>, width: usize, subsequent_indent: Seq<char>) -> Seq<
    Seq<char>,
>;

/// What `textwrap::dedent` gives for a text.
pub uninterp spec fn dedented(text: Seq<char>) -> Seq<char>;

/// What `textwrap::refill` gives for a text and a width.
pub uninterp spec fn refilled(text: Seq<char>, width: usize) -> Seq<char>;

/// Relies on `textwrap::wrap`, with the options `Options::new(width)` and
/// `subsequent_indent`: the lines of the wrapped text.
#[verifier::external_body]
fn wrap_text(text: &str, width: usize, subsequent_indent: &str) -> (r: Vec<String>)
    ensures
        strings_view(r@) == wrapped(text@, width, subsequent_indent@),
{
    let options = textwrap::Options::new(width).subsequent_indent(subsequent_indent);
    textwrap::wrap(text, options).into_iter().map(|line| line.into_owned()).collect()
}

/// Relies on `textwrap::dedent`: the text without the whitespace prefix that
/// all its lines share.
#[verifier::external_body]
fn dedent(text: &str) -> (r: String)
    ensures
        r@ == dedented(text@),
{
    textwrap::dedent(text)
}

/// Relies on `textwrap::refill`: the paragraph filled again to `width`.
#[verifier::external_body]
fn refill(text: &str, width: usize) -> (r: String)
    ensures
        r@ == refilled(text@, width),
{
    textwrap::refill(text, width)
}

/// `n` spaces.
pub open spec fn spaces(n: nat) -> Seq<char> {
    Seq::new(n, |i: int| ' ')
}

/// `name` followed by spaces up to `width` characters.
pub open spec fn padded(name: Seq<char>, width: nat) -> Seq<char> {
    if name.len() < width {
        name + spaces((width - name.len()) as nat)
    } else {
        name
    }
}

/// The longest UTF-8 length among the argument names.
pub open spec fn longest_name(args: Seq<(&str, String)>) -> nat
    decreases args.len(),
{
    if args.len() == 0 {
        0
    } else {
        let rest = longest_name(args.drop_last());
        let n = encode_utf8(args.last().0@).len();
        if n > rest {
            n
        } else {
            rest
        }
    }
}

/// One entry of an argument list laid out from its description's lines:
/// indent, padded name, two spaces, then the lines joined.
pub open spec fn entry_text(
    name: Seq<char>,
    description_lines: Seq<Seq<char>>,
    indent_width: nat,
    longest: nat,
) -> Seq<char> {
    spaces(indent_width) + padded(name, longest) + "  "@ + join_lines(description_lines)
}

/// One entry of an argument list: the description is wrapped to the room
/// left, its later lines aligned under its first.
pub open spec fn argument_entry(
    name: Seq<char>,
    description: Seq<char>,
    indent_width: nat,
    longest: nat,
    max_line_width: nat,
) -> Seq<char> {
    let desc_indent = indent_width + longest + 2;
    entry_text(
        name,
        wrapped(description, (max_line_width - desc_indent) as usize, spaces(desc_indent)),
        indent_width,
        longest,
    )
}

/// The entries of an argument list, joined by line breaks.
pub open spec fn arguments_text(
    args: Seq<(&str, String)>,
    indent_width: nat,
    max_line_width: nat,
) -> Seq<char> {
    join_lines(
        Seq::new(
            args.len(),
            |i: int|
                argument_entry(
                    args[i].0@,
                    args[i].1@,
                    indent_width,
                    longest_name(args),
                    max_line_width,
                ),
        ),
    )
}

fn spaces_string(n: usize) -> (r: String)
    ensures
        r@ == spaces(n as nat),
{
    let mut r = String::new();
    let mut i: usize = 0;
    while i < n
        invariant
            i <= n,
            r@ == spaces(i as nat),
        decreases n - i,
    {
        push_char(&mut r, ' ');
        i = i + 1;
        assert(r@ =~= spaces(i as nat));
    }
    r
}

fn longest_name_len(arguments: &[(&str, String)]) -> (r: usize)
    ensures
        r as nat == longest_name(arguments@),
{
    let mut longest: usize = 0;
    let mut i: usize = 0;
    while i < arguments.len()
        invariant
            i <= arguments@.len(),
            longest as nat == longest_name(arguments@.subrange(0, i as int)),
        decreases arguments@.len() - i,
    {
        assert(arguments@.subrange(0, i + 1).drop_last() =~= arguments@.subrange(0, i as int));
        assert(arguments@.subrange(0, i + 1).last() == arguments@[i as int]);
        let n = arguments[i].0.as_bytes().len();
        if n > longest {
            longest = n;
        }
        i = i + 1;
    }
    assert(arguments@.subrange(0, arguments@.len() as int) =~= arguments@);
    longest
}

/// Refills a paragraph to `max_line_width`, after removing the indentation
/// that all its lines share.
pub fn format_text(text: &str, max_line_width: usize) -> (r: String)
    ensures
        r@ == refilled(dedented(text@), max_line_width),
{
    let text = dedent(text);
    refill(text.as_str(), max_line_width)
}

/// One entry of an argument list from its name and its description's lines.
pub fn format_argument_entry(
    name: &str,
    description_lines: &Vec<String>,
    indent_width: usize,
    longest: usize,
) -> (r: String)
    ensures
        r@ == entry_text(
            name@,
            strings_view(description_lines@),
            indent_width as nat,
            longest as nat,
        ),
{
    let mut line = spaces_string(indent_width);
    line.append(name);
    let name_len = name.unicode_len();
    let mut k: usize = name_len;
    let ghost base = line@;
    while k < longest
        invariant
            name_len <= k <= longest || (name_len > longest && k == name_len),
            line@ == base + spaces((k - name_len) as nat),
        decreases longest - k,
    {
        push_char(&mut line, ' ');
        k = k + 1;
        assert(line@ =~= base + spaces((k - name_len) as nat));
    }
    proof {
        if name_len >= longest {
            assert(spaces(0) =~= Seq::<char>::empty());
            assert(line@ =~= base);
        }
    }
    assert(base == spaces(indent_width as nat) + name@);
    assert(base + spaces((k - name_len) as nat) =~= spaces(indent_width as nat) + padded(
        name@,
        longest as nat,
    ));
    line.append("  ");
    let desc = join_with_newlines(description_lines);
    line.append(desc.as_str());
    assert(line@ =~= entry_text(
        name@,
        strings_view(description_lines@),
        indent_width as nat,
        longest as nat,
    ));
    line
}

/// Lays out `(name, description)` pairs as an aligned list, each description
/// wrapped so that no line is wider than `max_line_width`. An empty list
/// gives an empty text.
pub fn format_args_list(
    arguments: &[(&str, String)],
    indent_width: usize,
    max_line_width: usize,
) -> (r: String)
    requires
        indent_width + longest_name(arguments@) + 2 <= max_line_width,
    ensures
        r@ == arguments_text(arguments@, indent_width as nat, max_line_width as nat),
{
    let longest = longest_name_len(arguments);
    let next_line_indent_width = indent_width + longest + 2;
    let next_line_indent = spaces_string(next_line_indent_width);
    let max_desc_width = max_line_width - next_line_indent_width;
    let ghost entries = Seq::new(
        arguments@.len(),
        |i: int|
            argument_entry(
                arguments@[i].0@,
                arguments@[i].1@,
                indent_width as nat,
                longest as nat,
                max_line_width as nat,
            ),
    );
    let mut lines: Vec<String> = Vec::new();
    let mut i: usize = 0;
    while i < arguments.len()
        invariant
            i <= arguments@.len(),
            longest as nat == longest_name(arguments@),
            next_line_indent_width == indent_width + longest + 2,
            next_line_indent@ == spaces(next_line_indent_width as nat),
            max_desc_width == max_line_width - next_line_indent_width,
            strings_view(lines@) == entries.subrange(0, i as int),
            entries.len() == arguments@.len(),
            forall|j: int|
                0 <= j < arguments@.len() ==> #[trigger] entries[j] == argument_entry(
                    arguments@[j].0@,
                    arguments@[j].1@,
                    indent_width as nat,
                    longest as nat,
                    max_line_width as nat,
                ),
        decreases arguments@.len() - i,
    {
        let description = wrap_text(
            arguments[i].1.as_str(),
            max_desc_width,
            next_line_indent.as_str(),
        );
        let line = format_argument_entry(arguments[i].0, &description, indent_width, longest);
        assert(line@ =~= entries[i as int]);
        proof {
            lines@.lemma_push_map_commute(|s: String| s@, line);
        }
        lines.push(line);
        i = i + 1;
        assert(strings_view(lines@) =~= entries.subrange(0, i as int));
    }
    assert(entries.subrange(0, entries.len() as int) =~= entries);
    join_with_newlines(&lines)
}

} // verus!
