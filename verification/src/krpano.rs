//! The krpano panorama frontend: parses the `krpano/image/level/shape`
//! XML, expands the `%`-variable template mini-language and the inline
//! `multires` pyramid notation, and produces one zoom level per image,
//! level, side and pyramid step, in declared order.
//!
//! A malformed entry (a bad number, a missing tile size or URL, an
//! unknown template variable) drops that entry alone; only a payload
//! that is not XML at all fails the parse.

use vstd::prelude::*;

verus! {

use vstd::utf8::{decode_utf8, valid_utf8};

use crate::dezoomer::TilesRect;
use crate::json::scan_digits;
use crate::network::spec_remove_bom;
use crate::text::{
    chars_to_string,
    dec_padded,
    spec_parse_u32,
    str_to_chars,
};
use crate::vec2d::Vec2d;
use crate::xml::{spec_attr, spec_parse_xml, XmlElement, XmlNodeV};

/// Why a krpano descriptor was rejected.
#[derive(Debug, Clone, Copy, PartialEq, Eq, Structural)]
pub enum KrpanoError {
    /// The payload is not the XML this frontend understands.
    XmlError,
}

/// Which tile coordinate a template variable substitutes.
#[derive(Debug, Clone, Copy, PartialEq, Eq, Structural)]
pub enum TileAxis {
    Col,
    Row,
}

/// One piece of a tile-URL template: a literal, or a zero-padded
/// column or row number.
#[derive(Debug)]
pub enum TemplatePart {
    Literal(Vec<char>),
    Variable { padding: usize, axis: TileAxis },
}

/// The mathematical shape of a template piece.
pub enum TemplatePartV {
    Literal(Seq<char>),
    Variable { padding: usize, axis: TileAxis },
}

impl View for TemplatePart {
    type V = TemplatePartV;

    open spec fn view(&self) -> TemplatePartV {
        match self {
            TemplatePart::Literal(l) => TemplatePartV::Literal(l@),
            TemplatePart::Variable { padding, axis } => TemplatePartV::Variable {
                padding: *padding,
                axis: *axis,
            },
        }
    }
}

/// The views of a template.
pub open spec fn parts_view(p: Seq<TemplatePart>) -> Seq<TemplatePartV> {
    Seq::new(p.len(), |i: int| p[i]@)
}

/// One zoom level of a krpano panorama.
#[derive(Debug)]
pub struct Level {
    pub base_url: String,
    pub size: Vec2d,
    pub tile_size: Vec2d,
    pub base_index: u32,
    pub template: Vec<TemplatePart>,
    pub shape_name: &'static str,
    pub side_name: &'static str,
}

/// The mathematical shape of a zoom level.
pub struct LevelV {
    pub base_url: Seq<char>,
    pub size: Vec2d,
    pub tile_size: Vec2d,
    pub base_index: u32,
    pub template: Seq<TemplatePartV>,
    pub shape_name: Seq<char>,
    pub side_name: Seq<char>,
}

impl View for Level {
    type V = LevelV;

    open spec fn view(&self) -> LevelV {
        LevelV {
            base_url: self.base_url@,
            size: self.size,
            tile_size: self.tile_size,
            base_index: self.base_index,
            template: parts_view(self.template@),
            shape_name: self.shape_name@,
            side_name: self.side_name@,
        }
    }
}

/// The views of a level list.
pub open spec fn levels_view(l: Seq<Level>) -> Seq<LevelV> {
    Seq::new(l.len(), |i: int| l[i]@)
}

/// Views distribute over concatenation.
proof fn lemma_levels_view_concat(a: Seq<Level>, b: Seq<Level>)
    ensures
        levels_view(a + b) =~= levels_view(a) + levels_view(b),
{
    assert forall|i: int| 0 <= i < a.len() + b.len() implies levels_view(a + b)[i] == (
    levels_view(a) + levels_view(b))[i] by {
        if i < a.len() {
            assert((a + b)[i] == a[i]);
        } else {
            assert((a + b)[i] == b[i - a.len()]);
        }
    }
}

/// A template parsed against a concrete level number and side letter:
/// `%x`/`%c` and `%y`/`%r` stay variables, `%l` becomes the level
/// number and `%s` the side letter, zero-padded to one more character
/// than the count of digits written between `%` and the letter.
pub open spec fn spec_parse_template(
    s: Seq<char>,
    i: int,
    level: int,
    side: Seq<char>,
    acc: Seq<TemplatePartV>,
) -> Option<Seq<TemplatePartV>>
    decreases s.len() - i,
{
    if i < 0 {
        None
    } else if i >= s.len() {
        Some(acc)
    } else if s[i] == '%' {
        let d = scan_digits(s, i + 1);
        let padding = d - i;
        if d < s.len() && d >= i + 1 && padding >= 0 {
            if s[d] == 'x' || s[d] == 'c' {
                spec_parse_template(
                    s,
                    d + 1,
                    level,
                    side,
                    acc.push(TemplatePartV::Variable { padding: padding as usize, axis: TileAxis::Col }),
                )
            } else if s[d] == 'y' || s[d] == 'r' {
                spec_parse_template(
                    s,
                    d + 1,
                    level,
                    side,
                    acc.push(TemplatePartV::Variable { padding: padding as usize, axis: TileAxis::Row }),
                )
            } else if s[d] == 'l' {
                spec_parse_template(
                    s,
                    d + 1,
                    level,
                    side,
                    acc.push(TemplatePartV::Literal(dec_padded(level, padding))),
                )
            } else if s[d] == 's' {
                spec_parse_template(s, d + 1, level, side, acc.push(TemplatePartV::Literal(side)))
            } else {
                None
            }
        } else {
            None
        }
    } else {
        spec_parse_template(s, i + 1, level, side, acc.push(TemplatePartV::Literal(seq![s[i]])))
    }
}

/// Parses a template, substituting the level number and side letter.
fn parse_template(v: &Vec<char>, level: u64, side: &str) -> (r: Option<Vec<TemplatePart>>)
    ensures
        r matches Some(parts) ==> spec_parse_template(v@, 0, level as int, side@, Seq::empty())
            == Some(parts_view(parts@)),
        r is None ==> spec_parse_template(v@, 0, level as int, side@, Seq::empty()) is None,
{
    let mut out: Vec<TemplatePart> = Vec::new();
    let mut i: usize = 0;
    proof {
        assert(parts_view(out@) =~= Seq::<TemplatePartV>::empty());
    }
    while i < v.len()
        invariant
            i <= v@.len(),
            spec_parse_template(v@, 0, level as int, side@, Seq::empty()) == spec_parse_template(
                v@,
                i as int,
                level as int,
                side@,
                parts_view(out@),
            ),
        decreases v@.len() - i,
    {
        let ghost prev = parts_view(out@);
        if v[i] == '%' {
            let d = scan_digits_exec(v, i + 1);
            let padding = d - i;
            if d >= v.len() {
                return None;
            }
            let c = v[d];
            if c == 'x' || c == 'c' {
                out.push(TemplatePart::Variable { padding, axis: TileAxis::Col });
                proof {
                    assert(parts_view(out@) =~= prev.push(
                        TemplatePartV::Variable { padding, axis: TileAxis::Col },
                    ));
                }
            } else if c == 'y' || c == 'r' {
                out.push(TemplatePart::Variable { padding, axis: TileAxis::Row });
                proof {
                    assert(parts_view(out@) =~= prev.push(
                        TemplatePartV::Variable { padding, axis: TileAxis::Row },
                    ));
                }
            } else if c == 'l' {
                let mut num = String::new();
                crate::text::append_dec_padded(&mut num, level, padding);
                let lit = str_to_chars(num.as_str());
                let ghost litv = lit@;
                out.push(TemplatePart::Literal(lit));
                proof {
                    assert(parts_view(out@) =~= prev.push(TemplatePartV::Literal(litv)));
                }
            } else if c == 's' {
                let lit = str_to_chars(side);
                let ghost litv = lit@;
                out.push(TemplatePart::Literal(lit));
                proof {
                    assert(parts_view(out@) =~= prev.push(TemplatePartV::Literal(litv)));
                }
            } else {
                return None;
            }
            i = d + 1;
        } else {
            let mut lit: Vec<char> = Vec::new();
            lit.push(v[i]);
            let ghost litv = lit@;
            out.push(TemplatePart::Literal(lit));
            proof {
                assert(litv =~= seq![v@[i as int]]);
                assert(parts_view(out@) =~= prev.push(TemplatePartV::Literal(litv)));
            }
            i += 1;
        }
    }
    Some(out)
}

/// Scans to the end of a digit run.
fn scan_digits_exec(v: &Vec<char>, i: usize) -> (j: usize)
    requires
        i <= v@.len(),
    ensures
        j as int == scan_digits(v@, i as int),
        i <= j <= v@.len(),
{
    let mut j = i;
    while j < v.len() && '0' <= v[j] && v[j] <= '9'
        invariant
            i <= j <= v@.len(),
            scan_digits(v@, i as int) == scan_digits(v@, j as int),
        decreases v@.len() - j,
    {
        j += 1;
    }
    j
}

/// What a rendered template part contributes for the tile at `pos`.
pub open spec fn spec_part_render(p: TemplatePartV, base_index: u32, pos: Vec2d) -> Seq<char> {
    match p {
        TemplatePartV::Literal(l) => l,
        TemplatePartV::Variable { padding, axis } => dec_padded(
            base_index as int + (match axis {
                TileAxis::Col => pos.x as int,
                TileAxis::Row => pos.y as int,
            }),
            padding as int,
        ),
    }
}

/// The rendered template: its parts in order, columns and rows offset
/// by the base index and zero-padded.
pub open spec fn spec_render(parts: Seq<TemplatePartV>, base_index: u32, pos: Vec2d) -> Seq<char>
    decreases parts.len(),
{
    if parts.len() == 0 {
        Seq::empty()
    } else {
        spec_render(parts.drop_last(), base_index, pos) + spec_part_render(
            parts.last(),
            base_index,
            pos,
        )
    }
}

/// Appends the zero-padded numeral of `n` to a character vector.
fn push_dec_padded(out: &mut Vec<char>, n: u64, width: usize)
    ensures
        final(out)@ == old(out)@ + dec_padded(n as int, width as int),
{
    let mut s = String::new();
    crate::text::append_dec_padded(&mut s, n, width);
    crate::text::push_str_chars(out, s.as_str());
    proof {
        assert(out@ =~= old(out)@ + dec_padded(n as int, width as int));
    }
}

impl Level {
    /// The level's descriptive name: `Krpano`, the shape, and the side,
    /// space-separated, empty pieces left out.
    pub fn plain_name(&self) -> (r: String)
        ensures
            r@ == spec_krpano_name(self.shape_name@, self.side_name@),
    {
        let mut s = String::from_str("Krpano");
        if self.shape_name.unicode_len() > 0 {
            s.append(" ");
            s.append(self.shape_name);
        }
        if self.side_name.unicode_len() > 0 {
            s.append(" ");
            s.append(self.side_name);
        }
        proof {
            reveal_strlit(" ");
            assert(" "@ =~= seq![' ']);
            assert(s@ =~= spec_krpano_name(self.shape_name@, self.side_name@));
        }
        s
    }
}

/// The displayed name of a level: `Krpano`, then the non-empty ones of
/// shape and side, space-separated.
pub open spec fn spec_krpano_name(shape: Seq<char>, side: Seq<char>) -> Seq<char> {
    "Krpano"@ + (if shape.len() > 0 {
        seq![' '] + shape
    } else {
        Seq::empty()
    }) + (if side.len() > 0 {
        seq![' '] + side
    } else {
        Seq::empty()
    })
}

impl TilesRect for Level {
    open spec fn wf(&self) -> bool {
        self.tile_size.x >= 1 && self.tile_size.y >= 1
    }

    open spec fn spec_size(&self) -> Vec2d {
        self.size
    }

    open spec fn spec_tile_size(&self) -> Vec2d {
        self.tile_size
    }

    open spec fn spec_overlap(&self) -> u32 {
        0
    }

    open spec fn spec_tile_url(&self, pos: Vec2d) -> Seq<char> {
        spec_render(parts_view(self.template@), self.base_index, pos)
    }

    fn size(&self) -> (r: Vec2d) {
        self.size
    }

    fn tile_size(&self) -> (r: Vec2d) {
        self.tile_size
    }

    fn overlap(&self) -> (r: u32) {
        0
    }

    /// The rendered template, byte for byte: a template that spells an
    /// absolute URL yields it unchanged, and a relative one is handed to
    /// the caller as written, to be resolved against the descriptor URL
    /// at fetch time.
    fn tile_url(&self, pos: Vec2d) -> (r: String) {
        let ghost pv = parts_view(self.template@);
        let mut rendered: Vec<char> = Vec::new();
        let mut i: usize = 0;
        proof {
            assert(pv.subrange(0, 0) =~= Seq::<TemplatePartV>::empty());
            assert(rendered@ =~= spec_render(pv.subrange(0, 0), self.base_index, pos));
        }
        while i < self.template.len()
            invariant
                i <= self.template@.len(),
                pv == parts_view(self.template@),
                rendered@ == spec_render(pv.subrange(0, i as int), self.base_index, pos),
            decreases self.template@.len() - i,
        {
            proof {
                let sub1 = pv.subrange(0, i + 1 as int);
                assert(sub1.drop_last() =~= pv.subrange(0, i as int));
                assert(sub1.last() == pv[i as int]);
                assert(pv[i as int] == self.template@[i as int]@);
            }
            match &self.template[i] {
                TemplatePart::Literal(l) => {
                    crate::text::extend_chars(&mut rendered, l);
                },
                TemplatePart::Variable { padding, axis } => {
                    let coord: u32 = match axis {
                        TileAxis::Col => pos.x,
                        TileAxis::Row => pos.y,
                    };
                    let value: u64 = self.base_index as u64 + coord as u64;
                    push_dec_padded(&mut rendered, value, *padding);
                },
            }
            i += 1;
        }
        proof {
            assert(pv.subrange(0, self.template@.len() as int) =~= pv);
        }
        chars_to_string(&rendered)
    }
}

/// The views of a side list: each side's letter and display name.
pub open spec fn sides_view(p: Seq<(&'static str, &'static str)>) -> Seq<(Seq<char>, Seq<char>)> {
    Seq::new(p.len(), |i: int| (p[i].0@, p[i].1@))
}

/// What a shape element expands to: its display name and its ordered
/// sides, each a substitution letter and a display name. A cube has
/// six; a flat, sphere or cylinder a single anonymous side; a named
/// cube face just itself. Anything else is no shape.
pub open spec fn spec_sides(name: Seq<char>) -> Option<(Seq<char>, Seq<(Seq<char>, Seq<char>)>)> {
    if name == "cube"@ {
        Some(
            (
                "Cube"@,
                seq![
                    ("f"@, "forward"@),
                    ("b"@, "back"@),
                    ("u"@, "up"@),
                    ("d"@, "down"@),
                    ("l"@, "left"@),
                    ("r"@, "right"@),
                ],
            ),
        )
    } else if name == "flat"@ {
        Some(("Flat"@, seq![(""@, ""@)]))
    } else if name == "sphere"@ {
        Some(("Sphere"@, seq![(""@, ""@)]))
    } else if name == "cylinder"@ {
        Some(("Cylinder"@, seq![(""@, ""@)]))
    } else if name == "left"@ {
        Some(("Left"@, seq![("l"@, ""@)]))
    } else if name == "right"@ {
        Some(("Right"@, seq![("r"@, ""@)]))
    } else if name == "front"@ {
        Some(("Front"@, seq![("f"@, ""@)]))
    } else if name == "back"@ {
        Some(("Back"@, seq![("b"@, ""@)]))
    } else if name == "up"@ {
        Some(("Up"@, seq![("u"@, ""@)]))
    } else if name == "down"@ {
        Some(("Down"@, seq![("d"@, ""@)]))
    } else {
        None
    }
}

/// Expands a shape element name into its display name and sides.
fn shape_sides(name: &Vec<char>) -> (r: Option<(&'static str, Vec<(&'static str, &'static str)>)>)
    ensures
        r matches Some((d, sides)) ==> spec_sides(name@) == Some((d@, sides_view(sides@))),
        r is None ==> spec_sides(name@) is None,
{
    let mut sides: Vec<(&'static str, &'static str)> = Vec::new();
    if crate::text::chars_eq_str_all(name, "cube") {
        sides.push(("f", "forward"));
        sides.push(("b", "back"));
        sides.push(("u", "up"));
        sides.push(("d", "down"));
        sides.push(("l", "left"));
        sides.push(("r", "right"));
        proof {
            assert(sides_view(sides@) =~= seq![
                ("f"@, "forward"@),
                ("b"@, "back"@),
                ("u"@, "up"@),
                ("d"@, "down"@),
                ("l"@, "left"@),
                ("r"@, "right"@),
            ]);
        }
        Some(("Cube", sides))
    } else if crate::text::chars_eq_str_all(name, "flat") {
        sides.push(("", ""));
        proof {
            assert(sides_view(sides@) =~= seq![(""@, ""@)]);
        }
        Some(("Flat", sides))
    } else if crate::text::chars_eq_str_all(name, "sphere") {
        sides.push(("", ""));
        proof {
            assert(sides_view(sides@) =~= seq![(""@, ""@)]);
        }
        Some(("Sphere", sides))
    } else if crate::text::chars_eq_str_all(name, "cylinder") {
        sides.push(("", ""));
        proof {
            assert(sides_view(sides@) =~= seq![(""@, ""@)]);
        }
        Some(("Cylinder", sides))
    } else if crate::text::chars_eq_str_all(name, "left") {
        sides.push(("l", ""));
        proof {
            assert(sides_view(sides@) =~= seq![("l"@, ""@)]);
        }
        Some(("Left", sides))
    } else if crate::text::chars_eq_str_all(name, "right") {
        sides.push(("r", ""));
        proof {
            assert(sides_view(sides@) =~= seq![("r"@, ""@)]);
        }
        Some(("Right", sides))
    } else if crate::text::chars_eq_str_all(name, "front") {
        sides.push(("f", ""));
        proof {
            assert(sides_view(sides@) =~= seq![("f"@, ""@)]);
        }
        Some(("Front", sides))
    } else if crate::text::chars_eq_str_all(name, "back") {
        sides.push(("b", ""));
        proof {
            assert(sides_view(sides@) =~= seq![("b"@, ""@)]);
        }
        Some(("Back", sides))
    } else if crate::text::chars_eq_str_all(name, "up") {
        sides.push(("u", ""));
        proof {
            assert(sides_view(sides@) =~= seq![("u"@, ""@)]);
        }
        Some(("Up", sides))
    } else if crate::text::chars_eq_str_all(name, "down") {
        sides.push(("d", ""));
        proof {
            assert(sides_view(sides@) =~= seq![("d"@, ""@)]);
        }
        Some(("Down", sides))
    } else {
        None
    }
}

/// An attribute read as a number, where a missing attribute is fine
/// and a malformed one poisons the carrying entry.
pub open spec fn spec_opt_u32(attrs: Seq<crate::xml::XmlAttrV>, name: Seq<char>) -> Option<
    Option<u32>,
> {
    match spec_attr(attrs, name) {
        None => Some(None),
        Some(s) => match spec_parse_u32(s) {
            Some(n) => Some(Some(n)),
            None => None,
        },
    }
}

/// The first `,` at or after `i`, or the end of the string.
pub open spec fn next_comma(s: Seq<char>, i: int) -> int
    decreases s.len() - i,
{
    if 0 <= i < s.len() {
        if s[i] == ',' {
            i
        } else {
            next_comma(s, i + 1)
        }
    } else {
        i
    }
}

/// Finds the next comma.
fn next_comma_exec(v: &Vec<char>, i: usize) -> (j: usize)
    requires
        i <= v@.len(),
    ensures
        j as int == next_comma(v@, i as int),
        i <= j <= v@.len(),
{
    let mut j = i;
    while j < v.len() && v[j] != ','
        invariant
            i <= j <= v@.len(),
            next_comma(v@, i as int) == next_comma(v@, j as int),
        decreases v@.len() - j,
    {
        j += 1;
    }
    j
}

/// What a `WxH` or `WxHxT` pyramid token denotes.
pub open spec fn spec_parse_dims(t: Seq<char>) -> Option<(u32, u32, Option<u32>)> {
    let a_end = scan_digits(t, 0);
    if a_end <= 0 || a_end >= t.len() || t[a_end] != 'x' {
        None
    } else {
        match spec_parse_u32(t.subrange(0, a_end)) {
            None => None,
            Some(w) => {
                let b_end = scan_digits(t, a_end + 1);
                if b_end <= a_end + 1 {
                    None
                } else {
                    match spec_parse_u32(t.subrange(a_end + 1, b_end)) {
                        None => None,
                        Some(h) => if b_end == t.len() {
                            Some((w, h, None))
                        } else if t[b_end] == 'x' {
                            let c_end = scan_digits(t, b_end + 1);
                            if c_end == t.len() && c_end > b_end + 1 {
                                match spec_parse_u32(t.subrange(b_end + 1, c_end)) {
                                    None => None,
                                    Some(ts) => Some((w, h, Some(ts))),
                                }
                            } else {
                                None
                            }
                        } else {
                            None
                        },
                    }
                }
            },
        }
    }
}

/// Parses a pyramid token.
fn parse_dims(v: &Vec<char>, from: usize, to: usize) -> (r: Option<(u32, u32, Option<u32>)>)
    requires
        from <= to <= v@.len(),
    ensures
        r == spec_parse_dims(v@.subrange(from as int, to as int)),
{
    let t = crate::text::chars_subrange(v, from, to);
    let ghost tv = t@;
    let a_end = scan_digits_exec(&t, 0);
    if a_end == 0 || a_end >= t.len() {
        return None;
    }
    if t[a_end] != 'x' {
        return None;
    }
    let w = match crate::text::parse_u32_chars(&t, 0, a_end) {
        None => {
            return None;
        },
        Some(w) => w,
    };
    let b_end = scan_digits_exec(&t, a_end + 1);
    if b_end <= a_end + 1 {
        return None;
    }
    let h = match crate::text::parse_u32_chars(&t, a_end + 1, b_end) {
        None => {
            return None;
        },
        Some(h) => h,
    };
    if b_end == t.len() {
        return Some((w, h, None));
    }
    if t[b_end] != 'x' {
        return None;
    }
    let c_end = scan_digits_exec(&t, b_end + 1);
    if !(c_end == t.len() && c_end > b_end + 1) {
        return None;
    }
    match crate::text::parse_u32_chars(&t, b_end + 1, c_end) {
        None => None,
        Some(ts) => Some((w, h, Some(ts))),
    }
}

/// The levels the descriptor's root yields: those of its `image`
/// children, in order.
pub open spec fn spec_krpano_root(uri: Seq<char>, root: XmlNodeV) -> Seq<LevelV> {
    spec_images(uri, root.children, 0)
}

/// The levels of the image entries from index `i` on.
pub open spec fn spec_images(uri: Seq<char>, cs: Seq<XmlNodeV>, i: int) -> Seq<LevelV>
    decreases cs.len() - i,
{
    if i < 0 || i >= cs.len() {
        Seq::empty()
    } else {
        (if cs[i].name == "image"@ {
            spec_image(uri, cs[i])
        } else {
            Seq::empty()
        }) + spec_images(uri, cs, i + 1)
    }
}

/// The levels of one `image`: its entries under its root tile size and
/// base index (default one); a malformed attribute drops the image.
pub open spec fn spec_image(uri: Seq<char>, img: XmlNodeV) -> Seq<LevelV> {
    let ts = spec_opt_u32(img.attrs, "tilesize"@);
    let bi = match spec_attr(img.attrs, "baseindex"@) {
        None => Some(1u32),
        Some(s) => spec_parse_u32(s),
    };
    match (ts, bi) {
        (Some(root_ts), Some(bi)) => spec_entries(uri, img.children, 0, root_ts, bi, 0),
        _ => Seq::empty(),
    }
}

/// The levels of an image's children from index `i` on: `level`
/// entries count up the level index; shape entries stand on their own.
pub open spec fn spec_entries(
    uri: Seq<char>,
    cs: Seq<XmlNodeV>,
    i: int,
    root_ts: Option<u32>,
    bi: u32,
    lvl_count: u32,
) -> Seq<LevelV>
    decreases cs.len() - i,
{
    if i < 0 || i >= cs.len() {
        Seq::empty()
    } else if cs[i].name == "level"@ {
        spec_level_entry(uri, cs[i], root_ts, bi, lvl_count) + spec_entries(
            uri,
            cs,
            i + 1,
            root_ts,
            bi,
            if lvl_count < u32::MAX {
                (lvl_count + 1) as u32
            } else {
                lvl_count
            },
        )
    } else {
        spec_shape(uri, cs[i], None, root_ts, bi, 0) + spec_entries(
            uri,
            cs,
            i + 1,
            root_ts,
            bi,
            lvl_count,
        )
    }
}

/// The levels of one `level` entry: its shapes at its declared size;
/// a missing or malformed size drops the entry.
pub open spec fn spec_level_entry(
    uri: Seq<char>,
    lv: XmlNodeV,
    root_ts: Option<u32>,
    bi: u32,
    idx: u32,
) -> Seq<LevelV> {
    match (spec_opt_u32(lv.attrs, "tiledimagewidth"@), spec_opt_u32(
        lv.attrs,
        "tiledimageheight"@,
    )) {
        (Some(Some(w)), Some(Some(h))) => spec_level_shapes(
            uri,
            lv.children,
            0,
            Vec2d { x: w, y: h },
            root_ts,
            bi,
            idx,
        ),
        _ => Seq::empty(),
    }
}

/// The levels of a `level` entry's shape children from index `i` on.
pub open spec fn spec_level_shapes(
    uri: Seq<char>,
    cs: Seq<XmlNodeV>,
    i: int,
    size: Vec2d,
    root_ts: Option<u32>,
    bi: u32,
    idx: u32,
) -> Seq<LevelV>
    decreases cs.len() - i,
{
    if i < 0 || i >= cs.len() {
        Seq::empty()
    } else {
        spec_shape(uri, cs[i], Some(size), root_ts, bi, idx) + spec_level_shapes(
            uri,
            cs,
            i + 1,
            size,
            root_ts,
            bi,
            idx,
        )
    }
}

/// The levels of one shape element: with a `multires` attribute, one
/// per pyramid token; else one per side at the enclosing level's size.
/// A missing URL or tile size drops the shape; a malformed own
/// `tilesize` counts as absent.
pub open spec fn spec_shape(
    uri: Seq<char>,
    node: XmlNodeV,
    size: Option<Vec2d>,
    root_ts: Option<u32>,
    bi: u32,
    idx: u32,
) -> Seq<LevelV> {
    match spec_sides(node.name) {
        None => Seq::empty(),
        Some((disp, sides)) => match spec_attr(node.attrs, "url"@) {
            None => Seq::empty(),
            Some(url) => {
                let own_ts = match spec_attr(node.attrs, "tilesize"@) {
                    None => None,
                    Some(s) => spec_parse_u32(s),
                };
                match spec_attr(node.attrs, "multires"@) {
                    Some(mr) => spec_multires(uri, url, mr, disp, sides, bi),
                    None => match (size, if own_ts is Some {
                        own_ts
                    } else {
                        root_ts
                    }) {
                        (Some(size), Some(ts)) => spec_side_levels(
                            uri,
                            url,
                            sides,
                            0,
                            disp,
                            size,
                            Vec2d { x: ts, y: ts },
                            bi,
                            idx,
                        ),
                        _ => Seq::empty(),
                    },
                }
            },
        },
    }
}

/// One level per side from index `i` on, each with the template parsed
/// against the side's letter and the level number `bi + idx`; a side
/// whose template does not parse is dropped.
pub open spec fn spec_side_levels(
    uri: Seq<char>,
    url: Seq<char>,
    sides: Seq<(Seq<char>, Seq<char>)>,
    i: int,
    disp: Seq<char>,
    size: Vec2d,
    ts: Vec2d,
    bi: u32,
    idx: u32,
) -> Seq<LevelV>
    decreases sides.len() - i,
{
    if i < 0 || i >= sides.len() {
        Seq::empty()
    } else {
        (match spec_parse_template(url, 0, bi as int + idx as int, sides[i].0, Seq::empty()) {
            Some(parts) => seq![
                LevelV {
                    base_url: uri,
                    size,
                    tile_size: ts,
                    base_index: bi,
                    template: parts,
                    shape_name: disp,
                    side_name: sides[i].1,
                },
            ],
            None => Seq::empty(),
        }) + spec_side_levels(uri, url, sides, i + 1, disp, size, ts, bi, idx)
    }
}

/// The levels of a `multires` pyramid: the first token is the default
/// tile size (without it the whole attribute is dropped), and each
/// further token one level, counting the level index up from zero.
pub open spec fn spec_multires(
    uri: Seq<char>,
    url: Seq<char>,
    mr: Seq<char>,
    disp: Seq<char>,
    sides: Seq<(Seq<char>, Seq<char>)>,
    bi: u32,
) -> Seq<LevelV> {
    let c0 = next_comma(mr, 0);
    match spec_parse_u32(mr.subrange(0, c0)) {
        None => Seq::empty(),
        Some(default_ts) => spec_multires_tokens(uri, url, mr, c0 + 1, disp, sides, bi, default_ts, 0),
    }
}

/// The levels of the pyramid tokens from position `i` on; a malformed
/// token is dropped but still counts a level index.
pub open spec fn spec_multires_tokens(
    uri: Seq<char>,
    url: Seq<char>,
    mr: Seq<char>,
    i: int,
    disp: Seq<char>,
    sides: Seq<(Seq<char>, Seq<char>)>,
    bi: u32,
    default_ts: u32,
    tokidx: u32,
) -> Seq<LevelV>
    decreases mr.len() + 1 - i,
{
    if i < 0 || i > mr.len() {
        Seq::empty()
    } else {
        let e = next_comma(mr, i);
        (match spec_parse_dims(mr.subrange(i, e)) {
            Some((w, h, ts_opt)) => spec_side_levels(
                uri,
                url,
                sides,
                0,
                disp,
                Vec2d { x: w, y: h },
                Vec2d {
                    x: match ts_opt {
                        Some(t) => t,
                        None => default_ts,
                    },
                    y: match ts_opt {
                        Some(t) => t,
                        None => default_ts,
                    },
                },
                bi,
                tokidx,
            ),
            None => Seq::empty(),
        }) + (if e + 1 > i && e <= mr.len() {
            spec_multires_tokens(
                uri,
                url,
                mr,
                e + 1,
                disp,
                sides,
                bi,
                default_ts,
                if tokidx < u32::MAX {
                    (tokidx + 1) as u32
                } else {
                    tokidx
                },
            )
        } else {
            Seq::empty()
        })
    }
}

/// One level per side, templates parsed per side letter.
fn side_levels(
    uri: &str,
    url: &Vec<char>,
    sides: &Vec<(&'static str, &'static str)>,
    i: usize,
    disp: &'static str,
    size: Vec2d,
    ts: Vec2d,
    bi: u32,
    idx: u32,
) -> (r: Vec<Level>)
    requires
        i <= sides@.len(),
    ensures
        levels_view(r@) == spec_side_levels(
            uri@,
            url@,
            sides_view(sides@),
            i as int,
            disp@,
            size,
            ts,
            bi,
            idx,
        ),
    decreases sides@.len() - i,
{
    let ghost sv = sides_view(sides@);
    if i >= sides.len() {
        let r: Vec<Level> = Vec::new();
        proof {
            assert(levels_view(r@) =~= Seq::<LevelV>::empty());
        }
        return r;
    }
    proof {
        assert(sv[i as int] == (sides@[i as int].0@, sides@[i as int].1@));
    }
    let (letter, side_name) = sides[i];
    let mut own: Vec<Level> = Vec::new();
    match parse_template(url, bi as u64 + idx as u64, letter) {
        Some(parts) => {
            let ghost partsv = parts_view(parts@);
            let lvl = Level {
                base_url: String::from_str(uri),
                size,
                tile_size: ts,
                base_index: bi,
                template: parts,
                shape_name: disp,
                side_name,
            };
            let ghost lvlv = lvl@;
            own.push(lvl);
            proof {
                assert(levels_view(own@) =~= seq![lvlv]);
            }
        },
        None => {
            proof {
                assert(levels_view(own@) =~= Seq::<LevelV>::empty());
            }
        },
    }
    let mut rest = side_levels(uri, url, sides, i + 1, disp, size, ts, bi, idx);
    let ghost ownv = own@;
    let ghost restv = rest@;
    own.append(&mut rest);
    proof {
        lemma_levels_view_concat(ownv, restv);
    }
    own
}

/// One level per pyramid token.
fn multires_tokens(
    uri: &str,
    url: &Vec<char>,
    mr: &Vec<char>,
    i: usize,
    disp: &'static str,
    sides: &Vec<(&'static str, &'static str)>,
    bi: u32,
    default_ts: u32,
    tokidx: u32,
) -> (r: Vec<Level>)
    requires
        i <= mr@.len(),
    ensures
        levels_view(r@) == spec_multires_tokens(
            uri@,
            url@,
            mr@,
            i as int,
            disp@,
            sides_view(sides@),
            bi,
            default_ts,
            tokidx,
        ),
    decreases mr@.len() + 1 - i,
{
    let e = next_comma_exec(mr, i);
    let mut own: Vec<Level>;
    match parse_dims(mr, i, e) {
        Some((w, h, ts_opt)) => {
            let t = match ts_opt {
                Some(t) => t,
                None => default_ts,
            };
            own = side_levels(
                uri,
                url,
                sides,
                0,
                disp,
                Vec2d { x: w, y: h },
                Vec2d { x: t, y: t },
                bi,
                tokidx,
            );
        },
        None => {
            own = Vec::new();
            proof {
                assert(levels_view(own@) =~= Seq::<LevelV>::empty());
            }
        },
    }
    let next_tok = if tokidx < u32::MAX {
        tokidx + 1
    } else {
        tokidx
    };
    let mut rest: Vec<Level>;
    if e >= mr.len() {
        rest = Vec::new();
        proof {
            assert(levels_view(rest@) =~= Seq::<LevelV>::empty());
            assert(spec_multires_tokens(
                uri@,
                url@,
                mr@,
                mr@.len() as int + 1,
                disp@,
                sides_view(sides@),
                bi,
                default_ts,
                next_tok,
            ) =~= Seq::<LevelV>::empty());
        }
    } else {
        rest = multires_tokens(uri, url, mr, e + 1, disp, sides, bi, default_ts, next_tok);
    }
    let ghost ownv = own@;
    let ghost restv = rest@;
    own.append(&mut rest);
    proof {
        lemma_levels_view_concat(ownv, restv);
    }
    own
}

/// The levels of a `multires` pyramid.
fn multires_levels(
    uri: &str,
    url: &Vec<char>,
    mr: &Vec<char>,
    disp: &'static str,
    sides: &Vec<(&'static str, &'static str)>,
    bi: u32,
) -> (r: Vec<Level>)
    ensures
        levels_view(r@) == spec_multires(uri@, url@, mr@, disp@, sides_view(sides@), bi),
{
    let c0 = next_comma_exec(mr, 0);
    let default_ts = match crate::text::parse_u32_chars(mr, 0, c0) {
        None => {
            let r: Vec<Level> = Vec::new();
            proof {
                assert(levels_view(r@) =~= Seq::<LevelV>::empty());
            }
            return r;
        },
        Some(t) => t,
    };
    if c0 >= mr.len() {
        let r: Vec<Level> = Vec::new();
        proof {
            assert(levels_view(r@) =~= Seq::<LevelV>::empty());
        }
        r
    } else {
        multires_tokens(uri, url, mr, c0 + 1, disp, sides, bi, default_ts, 0)
    }
}

/// The levels of one shape element.
fn shape_levels_one(
    uri: &str,
    node: &XmlElement,
    size: Option<Vec2d>,
    root_ts: Option<u32>,
    bi: u32,
    idx: u32,
) -> (r: Vec<Level>)
    ensures
        levels_view(r@) == spec_shape(uri@, node@, size, root_ts, bi, idx),
{
    let (disp, sides) = match shape_sides(&node.name) {
        None => {
            let r: Vec<Level> = Vec::new();
            proof {
                assert(levels_view(r@) =~= Seq::<LevelV>::empty());
            }
            return r;
        },
        Some(p) => p,
    };
    let url = match crate::xml::find_attr(node, "url") {
        None => {
            let r: Vec<Level> = Vec::new();
            proof {
                assert(levels_view(r@) =~= Seq::<LevelV>::empty());
            }
            return r;
        },
        Some(u) => u,
    };
    let own_ts: Option<u32> = match crate::xml::find_attr(node, "tilesize") {
        None => None,
        Some(v) => crate::dzi::parse_attr_u32(v),
    };
    match crate::xml::find_attr(node, "multires") {
        Some(mr) => multires_levels(uri, url, mr, disp, &sides, bi),
        None => {
            let ts = match own_ts {
                Some(t) => Some(t),
                None => root_ts,
            };
            match (size, ts) {
                (Some(size), Some(t)) => side_levels(
                    uri,
                    url,
                    &sides,
                    0,
                    disp,
                    size,
                    Vec2d { x: t, y: t },
                    bi,
                    idx,
                ),
                _ => {
                    let r: Vec<Level> = Vec::new();
                    proof {
                        assert(levels_view(r@) =~= Seq::<LevelV>::empty());
                    }
                    r
                },
            }
        },
    }
}

/// The levels of a `level` entry's shape children from index `i` on.
fn level_shapes_levels(
    uri: &str,
    cs: &Vec<XmlElement>,
    i: usize,
    size: Vec2d,
    root_ts: Option<u32>,
    bi: u32,
    idx: u32,
) -> (r: Vec<Level>)
    requires
        i <= cs@.len(),
    ensures
        levels_view(r@) == spec_level_shapes(
            uri@,
            crate::xml::children_view(cs@),
            i as int,
            size,
            root_ts,
            bi,
            idx,
        ),
    decreases cs@.len() - i,
{
    let ghost csv = crate::xml::children_view(cs@);
    if i >= cs.len() {
        let r: Vec<Level> = Vec::new();
        proof {
            assert(levels_view(r@) =~= Seq::<LevelV>::empty());
        }
        return r;
    }
    proof {
        assert(csv[i as int] == cs@[i as int]@);
    }
    let mut own = shape_levels_one(uri, &cs[i], Some(size), root_ts, bi, idx);
    let mut rest = level_shapes_levels(uri, cs, i + 1, size, root_ts, bi, idx);
    let ghost ownv = own@;
    let ghost restv = rest@;
    own.append(&mut rest);
    proof {
        lemma_levels_view_concat(ownv, restv);
    }
    own
}

/// The levels of one `level` entry.
fn level_entry_levels(uri: &str, lv: &XmlElement, root_ts: Option<u32>, bi: u32, idx: u32) -> (r:
    Vec<Level>)
    ensures
        levels_view(r@) == spec_level_entry(uri@, lv@, root_ts, bi, idx),
{
    let w = match crate::xml::find_attr(lv, "tiledimagewidth") {
        None => {
            let r: Vec<Level> = Vec::new();
            proof {
                assert(levels_view(r@) =~= Seq::<LevelV>::empty());
            }
            return r;
        },
        Some(v) => match crate::dzi::parse_attr_u32(v) {
            None => {
                let r: Vec<Level> = Vec::new();
                proof {
                    assert(levels_view(r@) =~= Seq::<LevelV>::empty());
                }
                return r;
            },
            Some(w) => w,
        },
    };
    let h = match crate::xml::find_attr(lv, "tiledimageheight") {
        None => {
            let r: Vec<Level> = Vec::new();
            proof {
                assert(levels_view(r@) =~= Seq::<LevelV>::empty());
            }
            return r;
        },
        Some(v) => match crate::dzi::parse_attr_u32(v) {
            None => {
                let r: Vec<Level> = Vec::new();
                proof {
                    assert(levels_view(r@) =~= Seq::<LevelV>::empty());
                }
                return r;
            },
            Some(h) => h,
        },
    };
    level_shapes_levels(uri, &lv.children, 0, Vec2d { x: w, y: h }, root_ts, bi, idx)
}

/// The levels of an image's children from index `i` on.
fn entries_levels(
    uri: &str,
    cs: &Vec<XmlElement>,
    i: usize,
    root_ts: Option<u32>,
    bi: u32,
    lvl_count: u32,
) -> (r: Vec<Level>)
    requires
        i <= cs@.len(),
    ensures
        levels_view(r@) == spec_entries(
            uri@,
            crate::xml::children_view(cs@),
            i as int,
            root_ts,
            bi,
            lvl_count,
        ),
    decreases cs@.len() - i,
{
    let ghost csv = crate::xml::children_view(cs@);
    if i >= cs.len() {
        let r: Vec<Level> = Vec::new();
        proof {
            assert(levels_view(r@) =~= Seq::<LevelV>::empty());
        }
        return r;
    }
    proof {
        assert(csv[i as int] == cs@[i as int]@);
    }
    let mut own: Vec<Level>;
    let mut rest: Vec<Level>;
    if crate::text::chars_eq_str_all(&cs[i].name, "level") {
        own = level_entry_levels(uri, &cs[i], root_ts, bi, lvl_count);
        let next_count = if lvl_count < u32::MAX {
            lvl_count + 1
        } else {
            lvl_count
        };
        rest = entries_levels(uri, cs, i + 1, root_ts, bi, next_count);
    } else {
        own = shape_levels_one(uri, &cs[i], None, root_ts, bi, 0);
        rest = entries_levels(uri, cs, i + 1, root_ts, bi, lvl_count);
    }
    let ghost ownv = own@;
    let ghost restv = rest@;
    own.append(&mut rest);
    proof {
        lemma_levels_view_concat(ownv, restv);
    }
    own
}

/// The levels of one `image` entry.
fn image_levels(uri: &str, img: &XmlElement) -> (r: Vec<Level>)
    ensures
        levels_view(r@) == spec_image(uri@, img@),
{
    let root_ts: Option<u32> = match crate::xml::find_attr(img, "tilesize") {
        None => None,
        Some(v) => match crate::dzi::parse_attr_u32(v) {
            Some(n) => Some(n),
            None => {
                let r: Vec<Level> = Vec::new();
                proof {
                    assert(levels_view(r@) =~= Seq::<LevelV>::empty());
                }
                return r;
            },
        },
    };
    let bi: u32 = match crate::xml::find_attr(img, "baseindex") {
        None => 1,
        Some(v) => match crate::dzi::parse_attr_u32(v) {
            Some(n) => n,
            None => {
                let r: Vec<Level> = Vec::new();
                proof {
                    assert(levels_view(r@) =~= Seq::<LevelV>::empty());
                }
                return r;
            },
        },
    };
    entries_levels(uri, &img.children, 0, root_ts, bi, 0)
}

/// The levels of the root's `image` children from index `i` on.
fn images_levels(uri: &str, cs: &Vec<XmlElement>, i: usize) -> (r: Vec<Level>)
    requires
        i <= cs@.len(),
    ensures
        levels_view(r@) == spec_images(uri@, crate::xml::children_view(cs@), i as int),
    decreases cs@.len() - i,
{
    let ghost csv = crate::xml::children_view(cs@);
    if i >= cs.len() {
        let r: Vec<Level> = Vec::new();
        proof {
            assert(levels_view(r@) =~= Seq::<LevelV>::empty());
        }
        return r;
    }
    proof {
        assert(csv[i as int] == cs@[i as int]@);
    }
    let mut own: Vec<Level>;
    if crate::text::chars_eq_str_all(&cs[i].name, "image") {
        own = image_levels(uri, &cs[i]);
    } else {
        own = Vec::new();
        proof {
            assert(levels_view(own@) =~= Seq::<LevelV>::empty());
        }
    }
    let mut rest = images_levels(uri, cs, i + 1);
    let ghost ownv = own@;
    let ghost restv = rest@;
    own.append(&mut rest);
    proof {
        lemma_levels_view_concat(ownv, restv);
    }
    own
}

/// Parses a krpano descriptor and produces its zoom levels: one per
/// image, level, side and pyramid step, in declared order.
pub fn load_from_properties(url: &str, contents: &[u8]) -> (r: Result<Vec<Level>, KrpanoError>)
    ensures
        (r is Ok) == (valid_utf8(spec_remove_bom(contents@)) && spec_parse_xml(
            decode_utf8(spec_remove_bom(contents@)),
        ) is Some),
        r matches Err(e) ==> e == KrpanoError::XmlError,
        r matches Ok(levels) ==> (spec_parse_xml(decode_utf8(spec_remove_bom(contents@)))
            matches Some(root) && levels_view(levels@) == spec_krpano_root(url@, root)),
{
    let stripped = crate::network::remove_bom(contents);
    let text = match crate::text::decode_utf8_bytes(stripped) {
        None => {
            return Err(KrpanoError::XmlError);
        },
        Some(t) => t,
    };
    let chars = str_to_chars(text.as_str());
    let root = match crate::xml::parse_xml(&chars) {
        None => {
            return Err(KrpanoError::XmlError);
        },
        Some(root) => root,
    };
    Ok(images_levels(url, &root.children, 0))
}

} // verus!

