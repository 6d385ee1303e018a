use vstd::prelude::*;
use crate::color::Rgb;

verus! {

/// Relies on std's `String::push`: appends one character.
pub assume_specification[ String::push ](s: &mut String, ch: char)
    ensures
        final(s)@ == old(s)@.push(ch),
;

/// Relies on std's `String::push_str`: appends a whole string slice.
pub assume_specification[ String::push_str ](s: &mut String, other: &str)
    ensures
        final(s)@ == old(s)@ + other@,
;

/// The character for one decimal digit.
pub open spec fn spec_digit(d: int) -> char
    recommends
        0 <= d <= 9,
{
    ((48 + d) as u8) as char
}

/// The decimal numeral of a non-negative number, most significant digit
/// first, with no leading zeros.
pub open spec fn spec_dec(n: int) -> Seq<char>
    recommends
        n >= 0,
    decreases n,
{
    if n < 10 {
        seq![spec_digit(n)]
    } else {
        spec_dec(n / 10).push(spec_digit(n % 10))
    }
}

/// Writes a number as its decimal numeral.
pub fn usize_to_string(n: usize) -> (s: String)
    ensures
        s@ == spec_dec(n as int),
    decreases n,
{
    let d = ((48 + (n % 10) as u8)) as char;
    if n < 10 {
        let mut s = String::new();
        s.push(d);
        s
    } else {
        let mut s = usize_to_string(n / 10);
        s.push(d);
        s
    }
}

/// The identifier of the record made in the given round for the given set
/// size: the two numbers joined by a dash.
pub fn id(input_len: usize, round: usize) -> (s: String)
    ensures
        s@ == spec_dec(input_len as int) + "-"@ + spec_dec(round as int),
{
    let mut s = usize_to_string(input_len);
    s.push_str("-");
    let r = usize_to_string(round);
    s.push_str(r.as_str());
    s
}

/// The CSS color value of an RGB color: its three channels as decimal
/// numerals inside `rgb(...)`.
pub open spec fn spec_css_color(c: Rgb) -> Seq<char> {
    "rgb("@ + spec_dec(c.r as int) + ", "@ + spec_dec(c.g as int) + ", "@ + spec_dec(
        c.b as int,
    ) + ")"@
}

/// Relies on css_colors' `RGB::to_css`: the channels written as decimal
/// numerals inside `rgb(...)`, as the crate's display implementation formats
/// them.
#[verifier::external_body]
pub(crate) fn rgb_css(c: &Rgb) -> (s: String)
    ensures
        s@ == spec_css_color(*c),
{
    css_colors::Color::to_css(css_colors::RGB {
        r: css_colors::Ratio::from_u8(c.r),
        g: css_colors::Ratio::from_u8(c.g),
        b: css_colors::Ratio::from_u8(c.b),
    })
}

/// One CSS rule: the swatch class under the record's class, with the color as
/// background.
pub open spec fn spec_rule(id: Seq<char>, class: Seq<char>, c: Rgb) -> Seq<char> {
    ".record-"@ + id + " ."@ + class + " {\n    background-color: "@ + spec_css_color(c)
        + ";\n}\n"@
}

fn push_rule(out: &mut String, rid: &String, class: &str, c: &Rgb)
    ensures
        final(out)@ == old(out)@ + spec_rule(rid@, class@, *c),
{
    out.push_str(".record-");
    out.push_str(rid.as_str());
    out.push_str(" .");
    out.push_str(class);
    out.push_str(" {\n    background-color: ");
    let css = rgb_css(c);
    out.push_str(css.as_str());
    out.push_str(";\n}\n");
}

/// The class of the swatch for the input color at one position.
pub open spec fn spec_input_class(i: int) -> Seq<char> {
    "input-"@ + spec_dec(i)
}

/// The CSS rules for all input swatches of a record, one per input color.
pub open spec fn spec_input_rules(id: Seq<char>, input: Seq<Rgb>) -> Seq<char>
    decreases input.len(),
{
    if input.len() == 0 {
        Seq::empty()
    } else {
        spec_input_rules(id, input.drop_last()) + spec_rule(
            id,
            spec_input_class(input.len() - 1),
            input.last(),
        )
    }
}

/// One generated sample set: its identifier, its input colors, and the three
/// aggregate colors derived from them.
#[derive(Debug)]
pub struct Record {
    pub id: String,
    pub input: Vec<Rgb>,
    pub rgb_avg: Rgb,
    pub less_mix: Rgb,
    pub hsl_geo: Rgb,
}

impl Record {
    /// The record's whole stylesheet fragment: a rule per input swatch, then
    /// one per aggregate.
    pub open spec fn css_spec(self) -> Seq<char> {
        spec_input_rules(self.id@, self.input@) + spec_rule(self.id@, "rgb-avg"@, self.rgb_avg)
            + spec_rule(self.id@, "less-mix"@, self.less_mix) + spec_rule(
            self.id@,
            "hsl-geo"@,
            self.hsl_geo,
        )
    }

    /// Renders the record's CSS: a class-scoped background rule for every
    /// input swatch and for each of the three aggregates.
    pub fn to_css(&self) -> (s: String)
        ensures
            s@ == self.css_spec(),
    {
        let mut out = String::new();
        let n = self.input.len();
        let mut i: usize = 0;
        while i < n
            invariant
                n == self.input@.len(),
                0 <= i <= n,
                out@ == spec_input_rules(self.id@, self.input@.take(i as int)),
            decreases n - i,
        {
            let mut class = String::new();
            class.push_str("input-");
            let num = usize_to_string(i);
            class.push_str(num.as_str());
            push_rule(&mut out, &self.id, class.as_str(), &self.input[i]);
            proof {
                let pre = self.input@.take(i + 1);
                assert(pre.drop_last() =~= self.input@.take(i as int));
                assert(pre.last() == self.input@[i as int]);
            }
            i = i + 1;
        }
        proof {
            assert(self.input@.take(n as int) =~= self.input@);
        }
        push_rule(&mut out, &self.id, "rgb-avg", &self.rgb_avg);
        push_rule(&mut out, &self.id, "less-mix", &self.less_mix);
        push_rule(&mut out, &self.id, "hsl-geo", &self.hsl_geo);
        out
    }

    /// The placeholder markup for the first `n` input swatches.
    pub open spec fn spec_input_divs(n: int) -> Seq<char>
        decreases n,
    {
        if n <= 0 {
            Seq::empty()
        } else {
            Self::spec_input_divs(n - 1) + "<div class='input input-"@ + spec_dec(n - 1)
                + "'></div>\n"@
        }
    }

    /// The record's markup fragment: a container carrying the record's class,
    /// one placeholder per input swatch, and one per aggregate.
    pub open spec fn html_spec(self) -> Seq<char> {
        "<div class='record record-"@ + self.id@ + "'>\n    <div class='inputs'>\n    "@
            + Self::spec_input_divs(self.input@.len() as int)
            + "\n    </div>\n    <div class='outputs'>\n        <div class='output rgb-avg'></div>\n        <div class='output less-mix'></div>\n        <div class='output hsl-geo'></div>\n    </div>\n</div>\n"@
    }

    /// Renders the record's HTML fragment, whose class names match the ones
    /// the CSS rules select on.
    pub fn to_html(&self) -> (s: String)
        ensures
            s@ == self.html_spec(),
    {
        let mut out = String::new();
        out.push_str("<div class='record record-");
        out.push_str(self.id.as_str());
        out.push_str("'>\n    <div class='inputs'>\n    ");
        let n = self.input.len();
        let mut i: usize = 0;
        while i < n
            invariant
                n == self.input@.len(),
                0 <= i <= n,
                out@ == "<div class='record record-"@ + self.id@
                    + "'>\n    <div class='inputs'>\n    "@ + Self::spec_input_divs(i as int),
            decreases n - i,
        {
            out.push_str("<div class='input input-");
            let num = usize_to_string(i);
            out.push_str(num.as_str());
            out.push_str("'></div>\n");
            i = i + 1;
        }
        out.push_str(
            "\n    </div>\n    <div class='outputs'>\n        <div class='output rgb-avg'></div>\n        <div class='output less-mix'></div>\n        <div class='output hsl-geo'></div>\n    </div>\n</div>\n",
        );
        out
    }
}

/// The stylesheet of a whole run: every record's rules, in order.
pub open spec fn spec_css_all(rs: Seq<Record>) -> Seq<char>
    decreases rs.len(),
{
    if rs.len() == 0 {
        Seq::empty()
    } else {
        spec_css_all(rs.drop_last()) + rs.last().css_spec()
    }
}

/// Renders the generated stylesheet: the concatenation of every record's CSS.
pub fn render_css(records: &Vec<Record>) -> (s: String)
    ensures
        s@ == spec_css_all(records@),
{
    let mut out = String::new();
    let n = records.len();
    let mut i: usize = 0;
    while i < n
        invariant
            n == records@.len(),
            0 <= i <= n,
            out@ == spec_css_all(records@.take(i as int)),
        decreases n - i,
    {
        let piece = records[i].to_css();
        out.push_str(piece.as_str());
        proof {
            assert(records@.take(i + 1).drop_last() =~= records@.take(i as int));
            assert(records@.take(i + 1).last() == records@[i as int]);
        }
        i = i + 1;
    }
    proof {
        assert(records@.take(n as int) =~= records@);
    }
    out
}

/// The markup of a whole run: every record's fragment, in order.
pub open spec fn spec_html_all(rs: Seq<Record>) -> Seq<char>
    decreases rs.len(),
{
    if rs.len() == 0 {
        Seq::empty()
    } else {
        spec_html_all(rs.drop_last()) + rs.last().html_spec()
    }
}

/// The full page around the records' markup: the fixed head linking the two
/// stylesheets, and a body holding every record in order.
pub open spec fn spec_page(rs: Seq<Record>) -> Seq<char> {
    "<html>\n <head>\n<link rel='stylesheet' type='text/css' href='index.css'>\n<link rel='stylesheet' type='text/css' href='colors.css'>\n</head>\n<body>\n"@
        + spec_html_all(rs) + "\n</body>\n</html>"@
}

/// Renders the page: every record's markup inside the fixed document shell.
pub fn render_page(records: &Vec<Record>) -> (s: String)
    ensures
        s@ == spec_page(records@),
{
    let mut out = String::new();
    out.push_str(
        "<html>\n <head>\n<link rel='stylesheet' type='text/css' href='index.css'>\n<link rel='stylesheet' type='text/css' href='colors.css'>\n</head>\n<body>\n",
    );
    let n = records.len();
    let mut i: usize = 0;
    while i < n
        invariant
            n == records@.len(),
            0 <= i <= n,
            out@ == "<html>\n <head>\n<link rel='stylesheet' type='text/css' href='index.css'>\n<link rel='stylesheet' type='text/css' href='colors.css'>\n</head>\n<body>\n"@
                + spec_html_all(records@.take(i as int)),
        decreases n - i,
    {
        let piece = records[i].to_html();
        out.push_str(piece.as_str());
        proof {
            assert(records@.take(i + 1).drop_last() =~= records@.take(i as int));
            assert(records@.take(i + 1).last() == records@[i as int]);
        }
        i = i + 1;
    }
    proof {
        assert(records@.take(n as int) =~= records@);
    }
    out.push_str("\n</body>\n</html>");
    out
}

} // verus!
