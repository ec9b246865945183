//! Icons of the object tools, embedded as SVG data URIs.
use vstd::prelude::*;
use crate::document::ObjectShape;
use crate::text::push_char;

verus! {

/// How one character of SVG text is written inside a data URI.
pub open spec fn svg_escape(c: char) -> Seq<char> {
    if c == '%' {
        seq!['%', '2', '5']
    } else if c == '#' {
        seq!['%', '2', '3']
    } else if c == '<' {
        seq!['%', '3', 'C']
    } else if c == '>' {
        seq!['%', '3', 'E']
    } else if c == '"' {
        seq!['\'']
    } else if c == '\n' {
        Seq::empty()
    } else if c == ' ' {
        seq!['%', '2', '0']
    } else {
        seq![c]
    }
}

/// SVG text with every character escaped for a data URI.
pub open spec fn svg_escaped(s: Seq<char>) -> Seq<char>
    decreases s.len(),
{
    if s.len() == 0 {
        Seq::empty()
    } else {
        svg_escaped(s.drop_last()) + svg_escape(s.last())
    }
}

/// The CSS `url(..)` of an SVG data URI holding `svg`.
pub open spec fn svg_data_uri_text(svg: Seq<char>) -> Seq<char> {
    "url(\"data:image/svg+xml;utf8,"@ + svg_escaped(svg) + "\")"@
}

fn push_svg_escaped(out: &mut String, c: char)
    ensures
        final(out)@ == old(out)@ + svg_escape(c),
{
    if c == '%' {
        push_char(out, '%');
        push_char(out, '2');
        push_char(out, '5');
    } else if c == '#' {
        push_char(out, '%');
        push_char(out, '2');
        push_char(out, '3');
    } else if c == '<' {
        push_char(out, '%');
        push_char(out, '3');
        push_char(out, 'C');
    } else if c == '>' {
        push_char(out, '%');
        push_char(out, '3');
        push_char(out, 'E');
    } else if c == '"' {
        push_char(out, '\'');
    } else if c == '\n' {
    } else if c == ' ' {
        push_char(out, '%');
        push_char(out, '2');
        push_char(out, '0');
    } else {
        push_char(out, c);
    }
    assert(final(out)@ =~= old(out)@ + svg_escape(c));
}

/// `svg` as the CSS `url(..)` of a data URI: '%', '#', '<', '>' and ' ' are
/// percent-encoded, double quotes become single quotes and line breaks are dropped.
pub fn svg_data_uri(svg: &str) -> (uri: String)
    ensures
        uri@ == svg_data_uri_text(svg@),
{
    let mut uri = "url(\"data:image/svg+xml;utf8,".to_string();
    let ghost prefix = uri@;
    let n = svg.unicode_len();
    let mut i: usize = 0;
    while i < n
        invariant
            n == svg@.len(),
            0 <= i <= n,
            uri@ == prefix + svg_escaped(svg@.take(i as int)),
        decreases n - i,
    {
        let c = svg.get_char(i);
        push_svg_escaped(&mut uri, c);
        assert(svg@.take(i as int + 1).drop_last() =~= svg@.take(i as int));
        i += 1;
    }
    assert(svg@.take(n as int) =~= svg@);
    uri.append("\")");
    uri
}

/// The SVG of the rectangle tool's icon.
pub open spec fn rectangle_icon_svg() -> Seq<char> {
    "<svg xmlns='http://www.w3.org/2000/svg' viewBox='0 0 20 20'>\n<rect x='3' y='3' width='14' height='14' fill='rgba(128,128,128,0.196)' stroke='#808080' stroke-width='1.5'/>\n</svg>"@
}

/// The SVG of the point tool's marker.
pub open spec fn point_marker_svg() -> Seq<char> {
    "<svg xmlns='http://www.w3.org/2000/svg' viewBox='0 0 20 30'>\n<path fill='rgba(128,128,128,0.196)' fill-rule='evenodd' stroke='#808080' stroke-width='1.5' d='M10 1C5.03 1 1 5.03 1 10c0 5.06 3.68 8.43 9 18 5.32-9.57 9-12.94 9-18 0-4.97-4.03-9-9-9Zm0 4.75a4.25 4.25 0 1 1 0 8.5a4.25 4.25 0 0 1 0-8.5Z'/>\n</svg>"@
}

/// The rectangle tool's icon as a CSS `url(..)`.
pub fn rectangle_icon_data_uri() -> (uri: String)
    ensures
        uri@ == svg_data_uri_text(rectangle_icon_svg()),
{
    svg_data_uri("<svg xmlns='http://www.w3.org/2000/svg' viewBox='0 0 20 20'>\n<rect x='3' y='3' width='14' height='14' fill='rgba(128,128,128,0.196)' stroke='#808080' stroke-width='1.5'/>\n</svg>")
}

/// The point tool's marker as a CSS `url(..)`.
pub fn point_marker_data_uri() -> (uri: String)
    ensures
        uri@ == svg_data_uri_text(point_marker_svg()),
{
    svg_data_uri("<svg xmlns='http://www.w3.org/2000/svg' viewBox='0 0 20 30'>\n<path fill='rgba(128,128,128,0.196)' fill-rule='evenodd' stroke='#808080' stroke-width='1.5' d='M10 1C5.03 1 1 5.03 1 10c0 5.06 3.68 8.43 9 18 5.32-9.57 9-12.94 9-18 0-4.97-4.03-9-9-9Zm0 4.75a4.25 4.25 0 1 1 0 8.5a4.25 4.25 0 0 1 0-8.5Z'/>\n</svg>")
}

/// The icon of an object shape, as an inline style.
pub open spec fn object_icon_style_text(shape: ObjectShape) -> Seq<char> {
    "background-image:"@ + svg_data_uri_text(
        match shape {
            ObjectShape::Rectangle => rectangle_icon_svg(),
            ObjectShape::Point => point_marker_svg(),
        },
    ) + ";background-size:contain;background-repeat:no-repeat;background-position:center;"@
}

/// The icon of an object shape, as an inline style.
pub fn object_icon_style(shape: ObjectShape) -> (style: String)
    ensures
        style@ == object_icon_style_text(shape),
{
    let image = match shape {
        ObjectShape::Rectangle => rectangle_icon_data_uri(),
        ObjectShape::Point => point_marker_data_uri(),
    };
    let mut style = "background-image:".to_string();
    style.append(image.as_str());
    style.append(";background-size:contain;background-repeat:no-repeat;background-position:center;");
    style
}

} // verus!
