use crate::number::{decimal_text, fixed_text, push_char, write_decimal, write_fixed, Number, SCALE};
use bimap::BiHashMap;
use std::collections::hash_map::RandomState;
use vstd::prelude::*;

verus! {

#[verifier::external_type_specification]
#[verifier::external_body]
#[verifier::reject_recursive_types(L)]
#[verifier::reject_recursive_types(R)]
#[verifier::reject_recursive_types(LS)]
#[verifier::reject_recursive_types(RS)]
pub struct ExBiHashMap<L, R, LS, RS>(BiHashMap<L, R, LS, RS>);

/// A bimap from color names to packed RGBA values.
pub type NameMap = BiHashMap<String, u32, RandomState, RandomState>;

/// The pairs that a name table holds, from name to packed RGBA value.
pub uninterp spec fn color_pairs(m: NameMap) -> Map<
    Seq<char>,
    u32,
>;

/// No two names of a table share a value.
pub open spec fn injective_pairs(m: Map<Seq<char>, u32>) -> bool {
    forall|a: Seq<char>, b: Seq<char>|
        #![trigger m[a], m[b]]
        m.contains_key(a) && m.contains_key(b) && m[a] == m[b] ==> a == b
}

/// What a bimap insertion does: the pairs that held the new name or the new
/// value leave, and the new pair comes in.
pub open spec fn pairs_after_insert(m: Map<Seq<char>, u32>, name: Seq<char>, v: u32) -> Map<
    Seq<char>,
    u32,
> {
    Map::new(|k: Seq<char>| m.contains_key(k) && k != name && m[k] != v, |k: Seq<char>| m[k]).insert(
        name,
        v,
    )
}

/// Relies on bimap::BiHashMap::new: the new bimap is empty.
#[verifier::external_body]
fn empty_pairs() -> (r: NameMap)
    ensures
        color_pairs(r).dom() == Set::<Seq<char>>::empty(),
{
    BiHashMap::new()
}

/// Relies on bimap::BiHashMap::insert: it removes the pairs holding either
/// value, then adds the pair; the map stays one-to-one.
#[verifier::external_body]
fn insert_pair(m: &mut NameMap, name: String, v: u32)
    ensures
        color_pairs(*final(m)) == pairs_after_insert(color_pairs(*old(m)), name@, v),
        injective_pairs(color_pairs(*final(m))),
{
    m.insert(name, v);
}

/// Relies on bimap::BiHashMap::get_by_right: the name paired with a value.
#[verifier::external_body]
fn name_by_value(m: &NameMap, v: u32) -> (r: Option<
    String,
>)
    ensures
        r is Some ==> color_pairs(*m).contains_key(r->Some_0@) && color_pairs(*m)[r->Some_0@] == v,
        r is None ==> forall|k: Seq<char>|
            #![trigger color_pairs(*m)[k]]
            color_pairs(*m).contains_key(k) ==> color_pairs(*m)[k] != v,
{
    m.get_by_right(&v).cloned()
}

/// Relies on bimap::BiHashMap::get_by_left: the value paired with a name.
#[verifier::external_body]
fn value_by_name(m: &NameMap, name: &str) -> (r: Option<
    u32,
>)
    ensures
        r is Some <==> color_pairs(*m).contains_key(name@),
        r is Some ==> r->Some_0 == color_pairs(*m)[name@],
{
    m.get_by_left(name).copied()
}

/// The CSS named colors: the pairs of a bimap into which the names are
/// inserted in this order, each with its packed `0xRRGGBBAA` value.
pub open spec fn css_named_colors() -> Map<Seq<char>, u32> {
    let m = Map::<Seq<char>, u32>::empty();
    let m = pairs_after_insert(m, "aliceblue"@, 0xF0F8FFFF);
    let m = pairs_after_insert(m, "antiquewhite"@, 0xFAEBD7FF);
    let m = pairs_after_insert(m, "aqua"@, 0x00FFFFFF);
    let m = pairs_after_insert(m, "aquamarine"@, 0x7FFFD4FF);
    let m = pairs_after_insert(m, "azure"@, 0xF0FFFFFF);
    let m = pairs_after_insert(m, "beige"@, 0xF5F5DCFF);
    let m = pairs_after_insert(m, "bisque"@, 0xFFE4C4FF);
    let m = pairs_after_insert(m, "black"@, 0x000000FF);
    let m = pairs_after_insert(m, "blanchedalmond"@, 0xFFEBCDFF);
    let m = pairs_after_insert(m, "blue"@, 0x0000FFFF);
    let m = pairs_after_insert(m, "blueviolet"@, 0x8A2BE2FF);
    let m = pairs_after_insert(m, "brown"@, 0xA52A2AFF);
    let m = pairs_after_insert(m, "burlywood"@, 0xDEB887FF);
    let m = pairs_after_insert(m, "cadetblue"@, 0x5F9EA0FF);
    let m = pairs_after_insert(m, "chartreuse"@, 0x7FFF00FF);
    let m = pairs_after_insert(m, "chocolate"@, 0xD2691EFF);
    let m = pairs_after_insert(m, "coral"@, 0xFF7F50FF);
    let m = pairs_after_insert(m, "cornflowerblue"@, 0x6495EDFF);
    let m = pairs_after_insert(m, "cornsilk"@, 0xFFF8DCFF);
    let m = pairs_after_insert(m, "crimson"@, 0xDC143CFF);
    let m = pairs_after_insert(m, "darkblue"@, 0x00008BFF);
    let m = pairs_after_insert(m, "darkcyan"@, 0x008B8BFF);
    let m = pairs_after_insert(m, "darkgoldenrod"@, 0xB8860BFF);
    let m = pairs_after_insert(m, "darkgray"@, 0xA9A9A9FF);
    let m = pairs_after_insert(m, "darkgreen"@, 0x006400FF);
    let m = pairs_after_insert(m, "darkkhaki"@, 0xBDB76BFF);
    let m = pairs_after_insert(m, "darkmagenta"@, 0x8B008BFF);
    let m = pairs_after_insert(m, "darkolivegreen"@, 0x556B2FFF);
    let m = pairs_after_insert(m, "darkorange"@, 0xFF8C00FF);
    let m = pairs_after_insert(m, "darkorchid"@, 0x9932CCFF);
    let m = pairs_after_insert(m, "darkred"@, 0x8B0000FF);
    let m = pairs_after_insert(m, "darksalmon"@, 0xE9967AFF);
    let m = pairs_after_insert(m, "darkseagreen"@, 0x8FBC8FFF);
    let m = pairs_after_insert(m, "darkslateblue"@, 0x483D8BFF);
    let m = pairs_after_insert(m, "darkslategray"@, 0x2F4F4FFF);
    let m = pairs_after_insert(m, "darkturquoise"@, 0x00CED1FF);
    let m = pairs_after_insert(m, "darkviolet"@, 0x9400D3FF);
    let m = pairs_after_insert(m, "deeppink"@, 0xFF1493FF);
    let m = pairs_after_insert(m, "deepskyblue"@, 0x00BFFFFF);
    let m = pairs_after_insert(m, "dimgray"@, 0x696969FF);
    let m = pairs_after_insert(m, "dodgerblue"@, 0x1E90FFFF);
    let m = pairs_after_insert(m, "firebrick"@, 0xB22222FF);
    let m = pairs_after_insert(m, "floralwhite"@, 0xFFFAF0FF);
    let m = pairs_after_insert(m, "forestgreen"@, 0x228B22FF);
    let m = pairs_after_insert(m, "fuchsia"@, 0xFF00FFFF);
    let m = pairs_after_insert(m, "gainsboro"@, 0xDCDCDCFF);
    let m = pairs_after_insert(m, "ghostwhite"@, 0xF8F8FFFF);
    let m = pairs_after_insert(m, "gold"@, 0xFFD700FF);
    let m = pairs_after_insert(m, "goldenrod"@, 0xDAA520FF);
    let m = pairs_after_insert(m, "gray"@, 0x808080FF);
    let m = pairs_after_insert(m, "green"@, 0x008000FF);
    let m = pairs_after_insert(m, "greenyellow"@, 0xADFF2FFF);
    let m = pairs_after_insert(m, "honeydew"@, 0xF0FFF0FF);
    let m = pairs_after_insert(m, "hotpink"@, 0xFF69B4FF);
    let m = pairs_after_insert(m, "indianred"@, 0xCD5C5CFF);
    let m = pairs_after_insert(m, "indigo"@, 0x4B0082FF);
    let m = pairs_after_insert(m, "ivory"@, 0xFFFFF0FF);
    let m = pairs_after_insert(m, "khaki"@, 0xF0E68CFF);
    let m = pairs_after_insert(m, "lavender"@, 0xE6E6FAFF);
    let m = pairs_after_insert(m, "lavenderblush"@, 0xFFF0F5FF);
    let m = pairs_after_insert(m, "lawngreen"@, 0x7CFC00FF);
    let m = pairs_after_insert(m, "lemonchiffon"@, 0xFFFACDFF);
    let m = pairs_after_insert(m, "lightblue"@, 0xADD8E6FF);
    let m = pairs_after_insert(m, "lightcoral"@, 0xF08080FF);
    let m = pairs_after_insert(m, "lightcyan"@, 0xE0FFFFFF);
    let m = pairs_after_insert(m, "lightgoldenrodyellow"@, 0xFAFAD2FF);
    let m = pairs_after_insert(m, "lightgray"@, 0xD3D3D3FF);
    let m = pairs_after_insert(m, "lightgreen"@, 0x90EE90FF);
    let m = pairs_after_insert(m, "lightpink"@, 0xFFB6C1FF);
    let m = pairs_after_insert(m, "lightsalmon"@, 0xFFA07AFF);
    let m = pairs_after_insert(m, "lightseagreen"@, 0x20B2AAFF);
    let m = pairs_after_insert(m, "lightskyblue"@, 0x87CEFAFF);
    let m = pairs_after_insert(m, "lightslategray"@, 0x778899FF);
    let m = pairs_after_insert(m, "lightsteelblue"@, 0xB0C4DEFF);
    let m = pairs_after_insert(m, "lightyellow"@, 0xFFFFE0FF);
    let m = pairs_after_insert(m, "lime"@, 0x00FF00FF);
    let m = pairs_after_insert(m, "limegreen"@, 0x32CD32FF);
    let m = pairs_after_insert(m, "linen"@, 0xFAF0E6FF);
    let m = pairs_after_insert(m, "maroon"@, 0x800000FF);
    let m = pairs_after_insert(m, "mediumaquamarine"@, 0x66CDAAFF);
    let m = pairs_after_insert(m, "mediumblue"@, 0x0000CDFF);
    let m = pairs_after_insert(m, "mediumorchid"@, 0xBA55D3FF);
    let m = pairs_after_insert(m, "mediumpurple"@, 0x9370DBFF);
    let m = pairs_after_insert(m, "mediumseagreen"@, 0x3CB371FF);
    let m = pairs_after_insert(m, "mediumslateblue"@, 0x7B68EEFF);
    let m = pairs_after_insert(m, "mediumspringgreen"@, 0x00FA9AFF);
    let m = pairs_after_insert(m, "mediumturquoise"@, 0x48D1CCFF);
    let m = pairs_after_insert(m, "mediumvioletred"@, 0xC71585FF);
    let m = pairs_after_insert(m, "midnightblue"@, 0x191970FF);
    let m = pairs_after_insert(m, "mintcream"@, 0xF5FFFAFF);
    let m = pairs_after_insert(m, "mistyrose"@, 0xFFE4E1FF);
    let m = pairs_after_insert(m, "moccasin"@, 0xFFE4B5FF);
    let m = pairs_after_insert(m, "navajowhite"@, 0xFFDEADFF);
    let m = pairs_after_insert(m, "navy"@, 0x000080FF);
    let m = pairs_after_insert(m, "oldlace"@, 0xFDF5E6FF);
    let m = pairs_after_insert(m, "olive"@, 0x808000FF);
    let m = pairs_after_insert(m, "olivedrab"@, 0x6B8E23FF);
    let m = pairs_after_insert(m, "orange"@, 0xFFA500FF);
    let m = pairs_after_insert(m, "orangered"@, 0xFF4500FF);
    let m = pairs_after_insert(m, "orchid"@, 0xDA70D6FF);
    let m = pairs_after_insert(m, "palegoldenrod"@, 0xEEE8AAFF);
    let m = pairs_after_insert(m, "palegreen"@, 0x98FB98FF);
    let m = pairs_after_insert(m, "paleturquoise"@, 0xAFEEEEFF);
    let m = pairs_after_insert(m, "palevioletred"@, 0xDB7093FF);
    let m = pairs_after_insert(m, "papayawhip"@, 0xFFEFD5FF);
    let m = pairs_after_insert(m, "peachpuff"@, 0xFFDAB9FF);
    let m = pairs_after_insert(m, "peru"@, 0xCD853FFF);
    let m = pairs_after_insert(m, "pink"@, 0xFFC0CBFF);
    let m = pairs_after_insert(m, "plum"@, 0xDDA0DDFF);
    let m = pairs_after_insert(m, "powderblue"@, 0xB0E0E6FF);
    let m = pairs_after_insert(m, "purple"@, 0x800080FF);
    let m = pairs_after_insert(m, "rebeccapurple"@, 0x663399FF);
    let m = pairs_after_insert(m, "red"@, 0xFF0000FF);
    let m = pairs_after_insert(m, "rosybrown"@, 0xBC8F8FFF);
    let m = pairs_after_insert(m, "royalblue"@, 0x4169E1FF);
    let m = pairs_after_insert(m, "saddlebrown"@, 0x8B4513FF);
    let m = pairs_after_insert(m, "salmon"@, 0xFA8072FF);
    let m = pairs_after_insert(m, "sandybrown"@, 0xF4A460FF);
    let m = pairs_after_insert(m, "seagreen"@, 0x2E8B57FF);
    let m = pairs_after_insert(m, "seashell"@, 0xFFF5EEFF);
    let m = pairs_after_insert(m, "sienna"@, 0xA0522DFF);
    let m = pairs_after_insert(m, "silver"@, 0xC0C0C0FF);
    let m = pairs_after_insert(m, "skyblue"@, 0x87CEEBFF);
    let m = pairs_after_insert(m, "slateblue"@, 0x6A5ACDFF);
    let m = pairs_after_insert(m, "slategray"@, 0x708090FF);
    let m = pairs_after_insert(m, "snow"@, 0xFFFAFAFF);
    let m = pairs_after_insert(m, "springgreen"@, 0x00FF7FFF);
    let m = pairs_after_insert(m, "steelblue"@, 0x4682B4FF);
    let m = pairs_after_insert(m, "tan"@, 0xD2B48CFF);
    let m = pairs_after_insert(m, "teal"@, 0x008080FF);
    let m = pairs_after_insert(m, "thistle"@, 0xD8BFD8FF);
    let m = pairs_after_insert(m, "tomato"@, 0xFF6347FF);
    let m = pairs_after_insert(m, "turquoise"@, 0x40E0D0FF);
    let m = pairs_after_insert(m, "violet"@, 0xEE82EEFF);
    let m = pairs_after_insert(m, "wheat"@, 0xF5DEB3FF);
    let m = pairs_after_insert(m, "white"@, 0xFFFFFFFF);
    let m = pairs_after_insert(m, "whitesmoke"@, 0xF5F5F5FF);
    let m = pairs_after_insert(m, "yellow"@, 0xFFFF00FF);
    let m = pairs_after_insert(m, "yellowgreen"@, 0x9ACD32FF);
    let m = pairs_after_insert(m, "transparent"@, 0x00000000);
    m
}

/// The table of CSS color names, read-only once built.
pub struct NamedColors {
    map: NameMap,
}

impl NamedColors {
    pub closed spec fn pairs(&self) -> Map<Seq<char>, u32> {
        color_pairs(self.map)
    }

    /// No two names share a color.
    pub open spec fn wf(&self) -> bool {
        injective_pairs(self.pairs())
    }

    /// Builds the table of the CSS named colors.
    pub fn new() -> (r: NamedColors)
        ensures
            r.wf(),
            r.pairs() == css_named_colors(),
    {
        let mut map = empty_pairs();
        assert(color_pairs(map) =~= Map::<Seq<char>, u32>::empty());
        insert_pair(&mut map, String::from_str("aliceblue"), 0xF0F8FFFF);
        insert_pair(&mut map, String::from_str("antiquewhite"), 0xFAEBD7FF);
        insert_pair(&mut map, String::from_str("aqua"), 0x00FFFFFF);
        insert_pair(&mut map, String::from_str("aquamarine"), 0x7FFFD4FF);
        insert_pair(&mut map, String::from_str("azure"), 0xF0FFFFFF);
        insert_pair(&mut map, String::from_str("beige"), 0xF5F5DCFF);
        insert_pair(&mut map, String::from_str("bisque"), 0xFFE4C4FF);
        insert_pair(&mut map, String::from_str("black"), 0x000000FF);
        insert_pair(&mut map, String::from_str("blanchedalmond"), 0xFFEBCDFF);
        insert_pair(&mut map, String::from_str("blue"), 0x0000FFFF);
        insert_pair(&mut map, String::from_str("blueviolet"), 0x8A2BE2FF);
        insert_pair(&mut map, String::from_str("brown"), 0xA52A2AFF);
        insert_pair(&mut map, String::from_str("burlywood"), 0xDEB887FF);
        insert_pair(&mut map, String::from_str("cadetblue"), 0x5F9EA0FF);
        insert_pair(&mut map, String::from_str("chartreuse"), 0x7FFF00FF);
        insert_pair(&mut map, String::from_str("chocolate"), 0xD2691EFF);
        insert_pair(&mut map, String::from_str("coral"), 0xFF7F50FF);
        insert_pair(&mut map, String::from_str("cornflowerblue"), 0x6495EDFF);
        insert_pair(&mut map, String::from_str("cornsilk"), 0xFFF8DCFF);
        insert_pair(&mut map, String::from_str("crimson"), 0xDC143CFF);
        insert_pair(&mut map, String::from_str("darkblue"), 0x00008BFF);
        insert_pair(&mut map, String::from_str("darkcyan"), 0x008B8BFF);
        insert_pair(&mut map, String::from_str("darkgoldenrod"), 0xB8860BFF);
        insert_pair(&mut map, String::from_str("darkgray"), 0xA9A9A9FF);
        insert_pair(&mut map, String::from_str("darkgreen"), 0x006400FF);
        insert_pair(&mut map, String::from_str("darkkhaki"), 0xBDB76BFF);
        insert_pair(&mut map, String::from_str("darkmagenta"), 0x8B008BFF);
        insert_pair(&mut map, String::from_str("darkolivegreen"), 0x556B2FFF);
        insert_pair(&mut map, String::from_str("darkorange"), 0xFF8C00FF);
        insert_pair(&mut map, String::from_str("darkorchid"), 0x9932CCFF);
        insert_pair(&mut map, String::from_str("darkred"), 0x8B0000FF);
        insert_pair(&mut map, String::from_str("darksalmon"), 0xE9967AFF);
        insert_pair(&mut map, String::from_str("darkseagreen"), 0x8FBC8FFF);
        insert_pair(&mut map, String::from_str("darkslateblue"), 0x483D8BFF);
        insert_pair(&mut map, String::from_str("darkslategray"), 0x2F4F4FFF);
        insert_pair(&mut map, String::from_str("darkturquoise"), 0x00CED1FF);
        insert_pair(&mut map, String::from_str("darkviolet"), 0x9400D3FF);
        insert_pair(&mut map, String::from_str("deeppink"), 0xFF1493FF);
        insert_pair(&mut map, String::from_str("deepskyblue"), 0x00BFFFFF);
        insert_pair(&mut map, String::from_str("dimgray"), 0x696969FF);
        insert_pair(&mut map, String::from_str("dodgerblue"), 0x1E90FFFF);
        insert_pair(&mut map, String::from_str("firebrick"), 0xB22222FF);
        insert_pair(&mut map, String::from_str("floralwhite"), 0xFFFAF0FF);
        insert_pair(&mut map, String::from_str("forestgreen"), 0x228B22FF);
        insert_pair(&mut map, String::from_str("fuchsia"), 0xFF00FFFF);
        insert_pair(&mut map, String::from_str("gainsboro"), 0xDCDCDCFF);
        insert_pair(&mut map, String::from_str("ghostwhite"), 0xF8F8FFFF);
        insert_pair(&mut map, String::from_str("gold"), 0xFFD700FF);
        insert_pair(&mut map, String::from_str("goldenrod"), 0xDAA520FF);
        insert_pair(&mut map, String::from_str("gray"), 0x808080FF);
        insert_pair(&mut map, String::from_str("green"), 0x008000FF);
        insert_pair(&mut map, String::from_str("greenyellow"), 0xADFF2FFF);
        insert_pair(&mut map, String::from_str("honeydew"), 0xF0FFF0FF);
        insert_pair(&mut map, String::from_str("hotpink"), 0xFF69B4FF);
        insert_pair(&mut map, String::from_str("indianred"), 0xCD5C5CFF);
        insert_pair(&mut map, String::from_str("indigo"), 0x4B0082FF);
        insert_pair(&mut map, String::from_str("ivory"), 0xFFFFF0FF);
        insert_pair(&mut map, String::from_str("khaki"), 0xF0E68CFF);
        insert_pair(&mut map, String::from_str("lavender"), 0xE6E6FAFF);
        insert_pair(&mut map, String::from_str("lavenderblush"), 0xFFF0F5FF);
        insert_pair(&mut map, String::from_str("lawngreen"), 0x7CFC00FF);
        insert_pair(&mut map, String::from_str("lemonchiffon"), 0xFFFACDFF);
        insert_pair(&mut map, String::from_str("lightblue"), 0xADD8E6FF);
        insert_pair(&mut map, String::from_str("lightcoral"), 0xF08080FF);
        insert_pair(&mut map, String::from_str("lightcyan"), 0xE0FFFFFF);
        insert_pair(&mut map, String::from_str("lightgoldenrodyellow"), 0xFAFAD2FF);
        insert_pair(&mut map, String::from_str("lightgray"), 0xD3D3D3FF);
        insert_pair(&mut map, String::from_str("lightgreen"), 0x90EE90FF);
        insert_pair(&mut map, String::from_str("lightpink"), 0xFFB6C1FF);
        insert_pair(&mut map, String::from_str("lightsalmon"), 0xFFA07AFF);
        insert_pair(&mut map, String::from_str("lightseagreen"), 0x20B2AAFF);
        insert_pair(&mut map, String::from_str("lightskyblue"), 0x87CEFAFF);
        insert_pair(&mut map, String::from_str("lightslategray"), 0x778899FF);
        insert_pair(&mut map, String::from_str("lightsteelblue"), 0xB0C4DEFF);
        insert_pair(&mut map, String::from_str("lightyellow"), 0xFFFFE0FF);
        insert_pair(&mut map, String::from_str("lime"), 0x00FF00FF);
        insert_pair(&mut map, String::from_str("limegreen"), 0x32CD32FF);
        insert_pair(&mut map, String::from_str("linen"), 0xFAF0E6FF);
        insert_pair(&mut map, String::from_str("maroon"), 0x800000FF);
        insert_pair(&mut map, String::from_str("mediumaquamarine"), 0x66CDAAFF);
        insert_pair(&mut map, String::from_str("mediumblue"), 0x0000CDFF);
        insert_pair(&mut map, String::from_str("mediumorchid"), 0xBA55D3FF);
        insert_pair(&mut map, String::from_str("mediumpurple"), 0x9370DBFF);
        insert_pair(&mut map, String::from_str("mediumseagreen"), 0x3CB371FF);
        insert_pair(&mut map, String::from_str("mediumslateblue"), 0x7B68EEFF);
        insert_pair(&mut map, String::from_str("mediumspringgreen"), 0x00FA9AFF);
        insert_pair(&mut map, String::from_str("mediumturquoise"), 0x48D1CCFF);
        insert_pair(&mut map, String::from_str("mediumvioletred"), 0xC71585FF);
        insert_pair(&mut map, String::from_str("midnightblue"), 0x191970FF);
        insert_pair(&mut map, String::from_str("mintcream"), 0xF5FFFAFF);
        insert_pair(&mut map, String::from_str("mistyrose"), 0xFFE4E1FF);
        insert_pair(&mut map, String::from_str("moccasin"), 0xFFE4B5FF);
        insert_pair(&mut map, String::from_str("navajowhite"), 0xFFDEADFF);
        insert_pair(&mut map, String::from_str("navy"), 0x000080FF);
        insert_pair(&mut map, String::from_str("oldlace"), 0xFDF5E6FF);
        insert_pair(&mut map, String::from_str("olive"), 0x808000FF);
        insert_pair(&mut map, String::from_str("olivedrab"), 0x6B8E23FF);
        insert_pair(&mut map, String::from_str("orange"), 0xFFA500FF);
        insert_pair(&mut map, String::from_str("orangered"), 0xFF4500FF);
        insert_pair(&mut map, String::from_str("orchid"), 0xDA70D6FF);
        insert_pair(&mut map, String::from_str("palegoldenrod"), 0xEEE8AAFF);
        insert_pair(&mut map, String::from_str("palegreen"), 0x98FB98FF);
        insert_pair(&mut map, String::from_str("paleturquoise"), 0xAFEEEEFF);
        insert_pair(&mut map, String::from_str("palevioletred"), 0xDB7093FF);
        insert_pair(&mut map, String::from_str("papayawhip"), 0xFFEFD5FF);
        insert_pair(&mut map, String::from_str("peachpuff"), 0xFFDAB9FF);
        insert_pair(&mut map, String::from_str("peru"), 0xCD853FFF);
        insert_pair(&mut map, String::from_str("pink"), 0xFFC0CBFF);
        insert_pair(&mut map, String::from_str("plum"), 0xDDA0DDFF);
        insert_pair(&mut map, String::from_str("powderblue"), 0xB0E0E6FF);
        insert_pair(&mut map, String::from_str("purple"), 0x800080FF);
        insert_pair(&mut map, String::from_str("rebeccapurple"), 0x663399FF);
        insert_pair(&mut map, String::from_str("red"), 0xFF0000FF);
        insert_pair(&mut map, String::from_str("rosybrown"), 0xBC8F8FFF);
        insert_pair(&mut map, String::from_str("royalblue"), 0x4169E1FF);
        insert_pair(&mut map, String::from_str("saddlebrown"), 0x8B4513FF);
        insert_pair(&mut map, String::from_str("salmon"), 0xFA8072FF);
        insert_pair(&mut map, String::from_str("sandybrown"), 0xF4A460FF);
        insert_pair(&mut map, String::from_str("seagreen"), 0x2E8B57FF);
        insert_pair(&mut map, String::from_str("seashell"), 0xFFF5EEFF);
        insert_pair(&mut map, String::from_str("sienna"), 0xA0522DFF);
        insert_pair(&mut map, String::from_str("silver"), 0xC0C0C0FF);
        insert_pair(&mut map, String::from_str("skyblue"), 0x87CEEBFF);
        insert_pair(&mut map, String::from_str("slateblue"), 0x6A5ACDFF);
        insert_pair(&mut map, String::from_str("slategray"), 0x708090FF);
        insert_pair(&mut map, String::from_str("snow"), 0xFFFAFAFF);
        insert_pair(&mut map, String::from_str("springgreen"), 0x00FF7FFF);
        insert_pair(&mut map, String::from_str("steelblue"), 0x4682B4FF);
        insert_pair(&mut map, String::from_str("tan"), 0xD2B48CFF);
        insert_pair(&mut map, String::from_str("teal"), 0x008080FF);
        insert_pair(&mut map, String::from_str("thistle"), 0xD8BFD8FF);
        insert_pair(&mut map, String::from_str("tomato"), 0xFF6347FF);
        insert_pair(&mut map, String::from_str("turquoise"), 0x40E0D0FF);
        insert_pair(&mut map, String::from_str("violet"), 0xEE82EEFF);
        insert_pair(&mut map, String::from_str("wheat"), 0xF5DEB3FF);
        insert_pair(&mut map, String::from_str("white"), 0xFFFFFFFF);
        insert_pair(&mut map, String::from_str("whitesmoke"), 0xF5F5F5FF);
        insert_pair(&mut map, String::from_str("yellow"), 0xFFFF00FF);
        insert_pair(&mut map, String::from_str("yellowgreen"), 0x9ACD32FF);
        insert_pair(&mut map, String::from_str("transparent"), 0x00000000);
        NamedColors { map }
    }

    /// The packed RGBA value of a name, exactly as spelled.
    pub fn value_of(&self, name: &str) -> (r: Option<u32>)
        ensures
            r is Some <==> self.pairs().contains_key(name@),
            r is Some ==> r->Some_0 == self.pairs()[name@],
    {
        value_by_name(&self.map, name)
    }

    /// The name of a packed RGBA value, if it has one.
    pub fn name_of(&self, v: u32) -> (r: Option<String>)
        ensures
            r is Some ==> self.pairs().contains_key(r->Some_0@) && self.pairs()[r->Some_0@] == v,
            r is None <==> !exists|k: Seq<char>| self.pairs().contains_key(k) && self.pairs()[k] == v,
    {
        let r = name_by_value(&self.map, v);
        proof {
            if r is None {
                assert forall|k: Seq<char>| !(self.pairs().contains_key(k) && self.pairs()[k] == v) by {
                    if self.pairs().contains_key(k) {
                        assert(color_pairs(self.map)[k] != v);
                    }
                }
            }
        }
        r
    }
}

} // verus!

verus! {

/// How a color was written: as a literal (a hex literal or a color name,
/// kept in its own spelling) or computed.
pub enum ColorFormat {
    Literal(String),
    Computed,
}

/// An RGBA color. `alpha` is fixed-point like `Number::value`, from 0 to
/// `SCALE`. A color given by hue, saturation and lightness keeps them in
/// `hsl`: the hue in degrees from 0 to 360, the other two as percentages,
/// all fixed-point.
pub struct Color {
    pub red: u8,
    pub green: u8,
    pub blue: u8,
    pub alpha: i64,
    pub format: ColorFormat,
    pub hsl: Option<(i64, i64, i64)>,
}

pub open spec fn clamp(v: int, lo: int, hi: int) -> int {
    if v < lo {
        lo
    } else if v > hi {
        hi
    } else {
        v
    }
}

pub open spec fn is_percent(unit: Seq<char>) -> bool {
    unit == seq!['%']
}

/// A color channel given as a number: percentages scale to 255; both forms
/// are clamped to the channel's range and rounded half up.
pub open spec fn channel_of(value: int, percent: bool) -> int {
    if percent {
        (clamp(value, 0, 100 * (SCALE as int)) * 255 + 50 * (SCALE as int)) / (100 * (SCALE as int))
    } else {
        (clamp(value, 0, 255 * (SCALE as int)) + (SCALE as int) / 2) / (SCALE as int)
    }
}

/// An alpha channel given as a number, clamped to `[0, 1]`; a percentage is
/// divided by 100, rounding half up at the last fixed-point digit.
pub open spec fn alpha_of(value: int, percent: bool) -> int {
    if percent {
        (clamp(value, 0, 100 * (SCALE as int)) + 50) / 100
    } else {
        clamp(value, 0, (SCALE as int))
    }
}

/// A color with a number added to or taken from each channel: a computed
/// color.
pub open spec fn shifted(c: Color, v: int, negate: bool) -> Color {
    let d = if negate {
        -v
    } else {
        v
    };
    Color {
        red: channel_of(c.red * (SCALE as int) + d, false) as u8,
        green: channel_of(c.green * (SCALE as int) + d, false) as u8,
        blue: channel_of(c.blue * (SCALE as int) + d, false) as u8,
        alpha: c.alpha,
        format: ColorFormat::Computed,
        hsl: None,
    }
}

/// An alpha byte as a fixed-point fraction of 255.
pub open spec fn alpha_of_byte(a: int) -> int {
    (a * (SCALE as int) + 127) / 255
}

/// Red, green, blue and alpha bytes packed as `0xRRGGBBAA`.
pub open spec fn pack(r: int, g: int, b: int, a: int) -> int {
    r * 0x1000000 + g * 0x10000 + b * 0x100 + a
}

pub open spec fn hex_val(c: char) -> int {
    if '0' <= c <= '9' {
        c as int - '0' as int
    } else if 'a' <= c <= 'f' {
        c as int - 'a' as int + 10
    } else if 'A' <= c <= 'F' {
        c as int - 'A' as int + 10
    } else {
        -1
    }
}

/// `#` followed by 3, 4, 6 or 8 hex digits.
pub open spec fn is_hex_literal(s: Seq<char>) -> bool {
    &&& s.len() == 4 || s.len() == 5 || s.len() == 7 || s.len() == 9
    &&& s[0] == '#'
    &&& forall|i: int| 1 <= i < s.len() ==> hex_val(#[trigger] s[i]) >= 0
}

/// Channel `k` (red, green, blue, alpha) of a hex literal, as a byte; short
/// forms repeat each digit.
pub open spec fn hex_channel(s: Seq<char>, k: int) -> int {
    if s.len() <= 5 {
        hex_val(s[1 + k]) * 17
    } else {
        hex_val(s[1 + 2 * k]) * 16 + hex_val(s[2 + 2 * k])
    }
}

pub open spec fn hex_alpha_byte(s: Seq<char>) -> int {
    if s.len() == 5 || s.len() == 9 {
        hex_channel(s, 3)
    } else {
        255
    }
}

pub open spec fn hex_digit_char(d: int) -> char {
    if d < 10 {
        (d + '0' as int) as char
    } else {
        (d - 10 + 'a' as int) as char
    }
}

pub open spec fn hex_byte_text(v: int) -> Seq<char> {
    seq![hex_digit_char(v / 16), hex_digit_char(v % 16)]
}

/// `#rrggbb` in lower case.
pub open spec fn hex_text(r: int, g: int, b: int) -> Seq<char> {
    seq!['#'] + hex_byte_text(r) + hex_byte_text(g) + hex_byte_text(b)
}

/// `rgba(r, g, b, a)`.
pub open spec fn rgba_text(r: int, g: int, b: int, a: int) -> Seq<char> {
    "rgba("@ + decimal_text(r as nat) + ", "@ + decimal_text(g as nat) + ", "@ + decimal_text(
        b as nat,
    ) + ", "@ + fixed_text(a) + ")"@
}

/// The text of a color: a literal keeps its spelling; an opaque computed
/// color takes its name if it has one, else `#rrggbb`; a translucent one
/// is written `rgba(...)`.
pub open spec fn color_text(c: Color, names: Map<Seq<char>, u32>) -> Seq<char> {
    match c.format {
        ColorFormat::Literal(t) => t@,
        ColorFormat::Computed => {
            let key = pack(c.red as int, c.green as int, c.blue as int, 255);
            if c.alpha == SCALE {
                if exists|k: Seq<char>| names.contains_key(k) && names[k] == key {
                    choose|k: Seq<char>| names.contains_key(k) && names[k] == key
                } else {
                    hex_text(c.red as int, c.green as int, c.blue as int)
                }
            } else {
                rgba_text(c.red as int, c.green as int, c.blue as int, c.alpha as int)
            }
        },
    }
}

pub open spec fn ascii_lower(c: char) -> char {
    if 'A' <= c <= 'Z' {
        ((c as int) + 32) as char
    } else {
        c
    }
}

fn lower_char(c: char) -> (r: char)
    ensures
        r == ascii_lower(c),
{
    if 'A' <= c && c <= 'Z' {
        ((c as u8) + 32) as char
    } else {
        c
    }
}

/// `s` with its ASCII upper-case letters in lower case.
fn lowercase_ascii(s: &str) -> (r: String)
    ensures
        r@ == s@.map_values(|c: char| ascii_lower(c)),
{
    let n = s.unicode_len();
    let mut r = String::new();
    let mut i: usize = 0;
    while i < n
        invariant
            n == s@.len(),
            0 <= i <= n,
            r@ == s@.take(i as int).map_values(|c: char| ascii_lower(c)),
        decreases n - i,
    {
        push_char(&mut r, lower_char(s.get_char(i)));
        i += 1;
        assert(r@ =~= s@.take(i as int).map_values(|c: char| ascii_lower(c)));
    }
    assert(s@.take(n as int) =~= s@);
    r
}

fn is_percent_unit(unit: &String) -> (r: bool)
    ensures
        r == is_percent(unit@),
{
    let r = unit.as_str().unicode_len() == 1 && unit.as_str().get_char(0) == '%';
    proof {
        if r {
            assert(unit@ =~= seq!['%']);
        }
    }
    r
}

fn hex_value(c: char) -> (r: Option<u8>)
    ensures
        r is Some <==> hex_val(c) >= 0,
        r is Some ==> r->Some_0 < 16,
        r is Some ==> r->Some_0 == hex_val(c),
{
    if '0' <= c && c <= '9' {
        Some((c as u32 - '0' as u32) as u8)
    } else if 'a' <= c && c <= 'f' {
        Some((c as u32 - 'a' as u32 + 10) as u8)
    } else if 'A' <= c && c <= 'F' {
        Some((c as u32 - 'A' as u32 + 10) as u8)
    } else {
        None
    }
}

fn hex_char(d: u8) -> (c: char)
    requires
        d < 16,
    ensures
        c == hex_digit_char(d as int),
{
    if d < 10 {
        (d + 48) as char
    } else {
        (d + 87) as char
    }
}

fn write_hex_byte(out: &mut String, v: u8)
    ensures
        final(out)@ == old(out)@ + hex_byte_text(v as int),
{
    push_char(out, hex_char(v / 16));
    push_char(out, hex_char(v % 16));
    assert(out@ =~= old(out)@ + hex_byte_text(v as int));
}

/// The byte that alpha is rounded to when a color is looked up by name.
fn alpha_byte_value(a: u8) -> (r: i64)
    ensures
        r == alpha_of_byte(a as int),
        0 <= r <= SCALE,
{
    assert(0 <= (a as int) * SCALE <= 255 * SCALE) by (nonlinear_arith)
        requires
            0 <= a <= 255,
    ;
    ((a as i64) * SCALE + 127) / 255
}

impl Color {
    pub open spec fn wf(&self) -> bool {
        0 <= self.alpha <= SCALE
    }

    pub fn copy(&self) -> (r: Color)
        ensures
            r == *self,
    {
        let format = match &self.format {
            ColorFormat::Literal(t) => ColorFormat::Literal(t.clone()),
            ColorFormat::Computed => ColorFormat::Computed,
        };
        Color {
            red: self.red,
            green: self.green,
            blue: self.blue,
            alpha: self.alpha,
            format,
            hsl: self.hsl,
        }
    }

    /// The channel that a number stands for in `rgb(...)`.
    pub fn channel_from(n: &Number) -> (r: u8)
        ensures
            r == channel_of(n.value as int, is_percent(n.unit@)),
    {
        Color::channel_from_fixed(n.value as i128, is_percent_unit(&n.unit))
    }

    /// The channel of a fixed-point value, or of a fixed-point percentage.
    pub fn channel_from_fixed(v: i128, percent: bool) -> (r: u8)
        ensures
            r == channel_of(v as int, percent),
    {
        if percent {
            let c: i128 = if v < 0 { 0 } else if v > 100 * (SCALE as i128) { 100 * (SCALE as i128) } else { v };
            assert(0 <= c * 255 <= 100 * SCALE * 255) by (nonlinear_arith)
                requires
                    0 <= c <= 100 * SCALE,
            ;
            let r = (c * 255 + 50 * (SCALE as i128)) / (100 * (SCALE as i128));
            proof {
                vstd::arithmetic::div_mod::lemma_div_is_ordered(
                    c * 255 + 50 * SCALE,
                    100 * SCALE * 255 + 50 * SCALE,
                    100 * SCALE,
                );
                assert((100 * SCALE * 255 + 50 * SCALE) / (100 * SCALE) == 255);
                assert(0 <= r <= 255);
            }
            r as u8
        } else {
            let c: i128 = if v < 0 { 0 } else if v > 255 * (SCALE as i128) { 255 * (SCALE as i128) } else { v };
            let r = (c + (SCALE as i128) / 2) / (SCALE as i128);
            proof {
                vstd::arithmetic::div_mod::lemma_div_is_ordered(
                    c + SCALE / 2,
                    255 * SCALE + SCALE / 2,
                    SCALE as int,
                );
                assert((255 * SCALE + SCALE / 2) / (SCALE as int) == 255);
                assert(0 <= r <= 255);
            }
            r as u8
        }
    }

    /// The color with `v` added to (or, with `negate`, taken from) each
    /// channel, clamped and rounded; alpha stays.
    pub fn shift(&self, v: i64, negate: bool) -> (r: Color)
        ensures
            r == shifted(*self, v as int, negate),
    {
        let d: i128 = if negate { -(v as i128) } else { v as i128 };
        Color {
            red: Color::channel_from_fixed((self.red as i128) * (SCALE as i128) + d, false),
            green: Color::channel_from_fixed((self.green as i128) * (SCALE as i128) + d, false),
            blue: Color::channel_from_fixed((self.blue as i128) * (SCALE as i128) + d, false),
            alpha: self.alpha,
            format: ColorFormat::Computed,
            hsl: None,
        }
    }

    /// The alpha that a number stands for in `rgba(...)`.
    pub fn alpha_from(n: &Number) -> (r: i64)
        ensures
            r == alpha_of(n.value as int, is_percent(n.unit@)),
            0 <= r <= SCALE,
            n.value < 0 ==> r == 0,
            is_percent(n.unit@) && n.value >= 100 * SCALE ==> r == SCALE,
            !is_percent(n.unit@) && n.value >= SCALE ==> r == SCALE,
    {
        let percent = is_percent_unit(&n.unit);
        let v = n.value;
        if percent {
            let c: i64 = if v < 0 { 0 } else if v > 100 * SCALE { 100 * SCALE } else { v };
            (c + 50) / 100
        } else {
            if v < 0 { 0 } else if v > SCALE { SCALE } else { v }
        }
    }

    /// `rgba(r, g, b, a)` from four numbers; the color is computed.
    pub fn from_rgba(r: &Number, g: &Number, b: &Number, a: &Number) -> (c: Color)
        ensures
            c.wf(),
            c.red == channel_of(r.value as int, is_percent(r.unit@)),
            c.green == channel_of(g.value as int, is_percent(g.unit@)),
            c.blue == channel_of(b.value as int, is_percent(b.unit@)),
            c.alpha == alpha_of(a.value as int, is_percent(a.unit@)),
            c.format is Computed,
            c.hsl is None,
    {
        Color {
            red: Color::channel_from(r),
            green: Color::channel_from(g),
            blue: Color::channel_from(b),
            alpha: Color::alpha_from(a),
            format: ColorFormat::Computed,
            hsl: None,
        }
    }

    /// `rgb(r, g, b)`: an opaque computed color.
    pub fn from_rgb(r: &Number, g: &Number, b: &Number) -> (c: Color)
        ensures
            c.wf(),
            c.red == channel_of(r.value as int, is_percent(r.unit@)),
            c.green == channel_of(g.value as int, is_percent(g.unit@)),
            c.blue == channel_of(b.value as int, is_percent(b.unit@)),
            c.alpha == SCALE,
            c.format is Computed,
            c.hsl is None,
    {
        Color {
            red: Color::channel_from(r),
            green: Color::channel_from(g),
            blue: Color::channel_from(b),
            alpha: SCALE,
            format: ColorFormat::Computed,
            hsl: None,
        }
    }

    /// A hex color literal, `#abc`, `#abcd`, `#aabbcc` or `#aabbccdd`; it
    /// keeps its spelling.
    pub fn from_hex_literal(text: &str) -> (r: Option<Color>)
        ensures
            r is Some <==> is_hex_literal(text@),
            r is Some ==> {
                let c = r->Some_0;
                &&& c.wf()
                &&& c.red == hex_channel(text@, 0)
                &&& c.green == hex_channel(text@, 1)
                &&& c.blue == hex_channel(text@, 2)
                &&& c.alpha == alpha_of_byte(hex_alpha_byte(text@))
                &&& c.format matches ColorFormat::Literal(t) && t@ == text@
                &&& c.hsl is None
                &&& forall|names: Map<Seq<char>, u32>| #[trigger] color_text(c, names) == text@
            },
    {
        let n = text.unicode_len();
        if !(n == 4 || n == 5 || n == 7 || n == 9) || text.get_char(0) != '#' {
            return None;
        }
        let mut digits: Vec<u8> = Vec::new();
        let mut i: usize = 1;
        while i < n
            invariant
                n == text@.len(),
                1 <= i <= n,
                digits@.len() == i - 1,
                forall|j: int| 1 <= j < i ==> hex_val(#[trigger] text@[j]) >= 0,
                forall|j: int| 1 <= j < i ==> digits@[j - 1] == hex_val(#[trigger] text@[j]),
                forall|j: int| 0 <= j < digits@.len() ==> #[trigger] digits@[j] < 16,
            decreases n - i,
        {
            match hex_value(text.get_char(i)) {
                Some(d) => digits.push(d),
                None => return None,
            }
            i += 1;
        }
        let (red, green, blue, a) = if n <= 5 {
            (
                digits[0] * 17,
                digits[1] * 17,
                digits[2] * 17,
                if n == 5 { digits[3] * 17 } else { 255 },
            )
        } else {
            (
                digits[0] * 16 + digits[1],
                digits[2] * 16 + digits[3],
                digits[4] * 16 + digits[5],
                if n == 9 { digits[6] * 16 + digits[7] } else { 255 },
            )
        };
        let alpha = alpha_byte_value(a);
        Some(Color { red, green, blue, alpha, format: ColorFormat::Literal(String::from_str(text)), hsl: None })
    }

    /// A color name, matched without regard to ASCII case; it keeps its
    /// spelling.
    pub fn from_name(name: &str, names: &NamedColors) -> (r: Option<Color>)
        ensures
            r is Some <==> names.pairs().contains_key(name@.map_values(|c: char| ascii_lower(c))),
            r is Some ==> {
                let c = r->Some_0;
                let v = names.pairs()[name@.map_values(|c: char| ascii_lower(c))];
                &&& c.wf()
                &&& pack(c.red as int, c.green as int, c.blue as int, (v % 256) as int) == v
                &&& c.alpha == alpha_of_byte((v % 256) as int)
                &&& c.format matches ColorFormat::Literal(t) && t@ == name@
                &&& c.hsl is None
            },
    {
        let lower = lowercase_ascii(name);
        match names.value_of(lower.as_str()) {
            None => None,
            Some(v) => {
                let red = (v / 0x1000000) as u8;
                let green = ((v / 0x10000) % 0x100) as u8;
                let blue = ((v / 0x100) % 0x100) as u8;
                let alpha = alpha_byte_value((v % 0x100) as u8);
                Some(Color { red, green, blue, alpha, format: ColorFormat::Literal(String::from_str(name)), hsl: None })
            },
        }
    }

    /// Appends the CSS text of the color.
    pub fn write_css(&self, out: &mut String, names: &NamedColors)
        requires
            names.wf(),
        ensures
            final(out)@ == old(out)@ + color_text(*self, names.pairs()),
    {
        match &self.format {
            ColorFormat::Literal(t) => {
                out.append(t.as_str());
            },
            ColorFormat::Computed => {
                let key: u32 = (self.red as u32) * 0x1000000 + (self.green as u32) * 0x10000
                    + (self.blue as u32) * 0x100 + 255;
                if self.alpha == SCALE {
                    match names.name_of(key) {
                        Some(name) => {
                            proof {
                                let k = choose|k: Seq<char>|
                                    names.pairs().contains_key(k) && names.pairs()[k] == key;
                                assert(names.pairs()[k] == names.pairs()[name@]);
                            }
                            out.append(name.as_str());
                        },
                        None => {
                            push_char(out, '#');
                            write_hex_byte(out, self.red);
                            write_hex_byte(out, self.green);
                            write_hex_byte(out, self.blue);
                            assert(out@ =~= old(out)@ + hex_text(
                                self.red as int,
                                self.green as int,
                                self.blue as int,
                            ));
                        },
                    }
                } else {
                    out.append("rgba(");
                    write_decimal(out, self.red as u64);
                    out.append(", ");
                    write_decimal(out, self.green as u64);
                    out.append(", ");
                    write_decimal(out, self.blue as u64);
                    out.append(", ");
                    write_fixed(out, self.alpha);
                    out.append(")");
                    assert(out@ =~= old(out)@ + rgba_text(
                        self.red as int,
                        self.green as int,
                        self.blue as int,
                        self.alpha as int,
                    ));
                }
            },
        }
    }

    /// The CSS text of the color. An opaque computed color that has a name
    /// is written as that name.
    pub fn to_css(&self, names: &NamedColors) -> (r: String)
        requires
            names.wf(),
        ensures
            r@ == color_text(*self, names.pairs()),
            self.format is Computed && self.alpha == SCALE ==> forall|k: Seq<char>|
                names.pairs().contains_key(k) && names.pairs()[k] == pack(
                    self.red as int,
                    self.green as int,
                    self.blue as int,
                    255,
                ) ==> r@ == k,
    {
        let mut out = String::new();
        self.write_css(&mut out, names);
        proof {
            assert(out@ =~= color_text(*self, names.pairs()));
            if self.format is Computed && self.alpha == SCALE {
                assert forall|k: Seq<char>|
                    names.pairs().contains_key(k) && names.pairs()[k] == pack(
                        self.red as int,
                        self.green as int,
                        self.blue as int,
                        255,
                    ) implies out@ == k by {
                    let c = choose|c: Seq<char>|
                        names.pairs().contains_key(c) && names.pairs()[c] == pack(
                            self.red as int,
                            self.green as int,
                            self.blue as int,
                            255,
                        );
                    assert(names.pairs()[c] == names.pairs()[k]);
                }
            }
        }
        out
    }
}

} // verus!

verus! {

/// A fixed-point percentage as a fraction of `SCALE`, clamped to `[0, 1]`.
pub open spec fn pct_fraction(v: int) -> int {
    clamp(v, 0, 100 * (SCALE as int)) / 100
}

/// Degrees brought into `[0, 360)`.
pub open spec fn norm_degrees(v: int) -> int {
    let m = 360 * (SCALE as int);
    if v >= 0 {
        v % m
    } else {
        (m - ((-v) % m)) % m
    }
}

/// From `a` towards `b` by `num / den` of the way, rounded towards `a`.
pub open spec fn lerp(a: int, b: int, num: int, den: int) -> int {
    if b >= a {
        a + (b - a) * num / den
    } else {
        a - (a - b) * num / den
    }
}

pub open spec fn hsl_m2(s: int, l: int) -> int {
    let sc = SCALE as int;
    clamp(
        if 2 * l <= sc {
            l * (s + sc) / sc
        } else {
            l + s - l * s / sc
        },
        0,
        sc,
    )
}

pub open spec fn hsl_m1(s: int, l: int) -> int {
    clamp(2 * l - hsl_m2(s, l), 0, SCALE as int)
}

/// The level of a channel whose hue lies `t` degrees round the wheel.
pub open spec fn hue_level(m1: int, m2: int, t: int) -> int {
    let sc = SCALE as int;
    clamp(
        if t < 60 * sc {
            lerp(m1, m2, t, 60 * sc)
        } else if t < 180 * sc {
            m2
        } else if t < 240 * sc {
            lerp(m1, m2, 240 * sc - t, 60 * sc)
        } else {
            m1
        },
        0,
        sc,
    )
}

/// A level in `[0, 1]` as a byte, rounded half up.
pub open spec fn level_byte(x: int) -> int {
    clamp((x * 255 + (SCALE as int) / 2) / (SCALE as int), 0, 255)
}

/// The channel of `hsl(h, s, l)` whose hue is offset by `offset` degrees
/// (120 for red, 0 for green, -120 for blue).
pub open spec fn hsl_channel(h: int, s: int, l: int, offset: int) -> int {
    level_byte(
        hue_level(hsl_m1(pct_fraction(s), pct_fraction(l)), hsl_m2(pct_fraction(s), pct_fraction(l)), norm_degrees(h + offset * (SCALE as int))),
    )
}

fn norm_degrees_exec(v: i128) -> (r: i128)
    requires
        -4 * (i64::MAX as int) <= v <= 4 * (i64::MAX as int),
    ensures
        r == norm_degrees(v as int),
        0 <= r < 360 * SCALE,
{
    let m: i128 = 360 * (SCALE as i128);
    if v >= 0 {
        v % m
    } else {
        (m - ((-v) % m)) % m
    }
}

fn lerp_exec(a: i128, b: i128, num: i128, den: i128) -> (r: i128)
    requires
        0 <= a <= SCALE,
        0 <= b <= SCALE,
        0 <= num <= 360 * SCALE,
        1 <= den <= 360 * SCALE,
    ensures
        r == lerp(a as int, b as int, num as int, den as int),
        -400 * SCALE * SCALE <= r <= 400 * SCALE * SCALE,
{
    let d = if b >= a { b - a } else { a - b };
    assert(0 <= d * num <= SCALE * (360 * SCALE)) by (nonlinear_arith)
        requires
            0 <= d <= SCALE,
            0 <= num <= 360 * SCALE,
    ;
    let q = d * num / den;
    proof {
        vstd::arithmetic::div_mod::lemma_div_is_ordered_by_denominator(d * num, 1, den as int);
    }
    if b >= a {
        a + q
    } else {
        a - q
    }
}

fn clamp_exec(v: i128, lo: i128, hi: i128) -> (r: i128)
    requires
        lo <= hi,
    ensures
        r == clamp(v as int, lo as int, hi as int),
{
    if v < lo {
        lo
    } else if v > hi {
        hi
    } else {
        v
    }
}

fn hsl_channel_exec(h: i64, s: i64, l: i64, offset: i128) -> (r: u8)
    requires
        -120 <= offset <= 120,
    ensures
        r == hsl_channel(h as int, s as int, l as int, offset as int),
{
    let sc = SCALE as i128;
    let sf = clamp_exec(s as i128, 0, 100 * sc) / 100;
    let lf = clamp_exec(l as i128, 0, 100 * sc) / 100;
    assert(0 <= lf * (sf + sc) <= SCALE * (2 * SCALE)) by (nonlinear_arith)
        requires
            0 <= lf <= SCALE,
            0 <= sf <= SCALE,
            sc == SCALE,
    ;
    assert(0 <= lf * sf <= SCALE * SCALE) by (nonlinear_arith)
        requires
            0 <= lf <= SCALE,
            0 <= sf <= SCALE,
    ;
    let raw2 = if 2 * lf <= sc {
        lf * (sf + sc) / sc
    } else {
        lf + sf - lf * sf / sc
    };
    proof {
        vstd::arithmetic::div_mod::lemma_div_is_ordered_by_denominator(lf * (sf + sc), 1, sc as int);
        vstd::arithmetic::div_mod::lemma_div_is_ordered_by_denominator(lf * sf, 1, sc as int);
    }
    let m2 = clamp_exec(raw2, 0, sc);
    let m1 = clamp_exec(2 * lf - m2, 0, sc);
    assert(-120 * SCALE <= offset * sc <= 120 * SCALE) by (nonlinear_arith)
        requires
            -120 <= offset <= 120,
            sc == SCALE,
    ;
    let t = norm_degrees_exec(h as i128 + offset * sc);
    let level = if t < 60 * sc {
        lerp_exec(m1, m2, t, 60 * sc)
    } else if t < 180 * sc {
        m2
    } else if t < 240 * sc {
        lerp_exec(m1, m2, 240 * sc - t, 60 * sc)
    } else {
        m1
    };
    let x = clamp_exec(level, 0, sc);
    assert(0 <= x * 255 <= SCALE * 255) by (nonlinear_arith)
        requires
            0 <= x <= SCALE,
    ;
    let byte = clamp_exec((x * 255 + sc / 2) / sc, 0, 255);
    byte as u8
}

impl Color {
    /// `hsla(h, s, l, a)`: a computed color that keeps its hue (brought
    /// into `[0, 360)`), saturation and lightness (as clamped percentages;
    /// a unitless number counts as a percentage).
    pub fn from_hsla(h: &Number, s: &Number, l: &Number, a: &Number) -> (c: Color)
        ensures
            c.wf(),
            c.red == hsl_channel(h.value as int, s.value as int, l.value as int, 120),
            c.green == hsl_channel(h.value as int, s.value as int, l.value as int, 0),
            c.blue == hsl_channel(h.value as int, s.value as int, l.value as int, -120),
            c.alpha == alpha_of(a.value as int, is_percent(a.unit@)),
            c.format is Computed,
            c.hsl == Some(
                (
                    norm_degrees(h.value as int) as i64,
                    clamp(s.value as int, 0, 100 * (SCALE as int)) as i64,
                    clamp(l.value as int, 0, 100 * (SCALE as int)) as i64,
                ),
            ),
    {
        let sc = SCALE as i128;
        let hue = norm_degrees_exec(h.value as i128) as i64;
        let sat = clamp_exec(s.value as i128, 0, 100 * sc) as i64;
        let light = clamp_exec(l.value as i128, 0, 100 * sc) as i64;
        Color {
            red: hsl_channel_exec(h.value, s.value, l.value, 120),
            green: hsl_channel_exec(h.value, s.value, l.value, 0),
            blue: hsl_channel_exec(h.value, s.value, l.value, -120),
            alpha: Color::alpha_from(a),
            format: ColorFormat::Computed,
            hsl: Some((hue, sat, light)),
        }
    }

    /// Hue (degrees), saturation and lightness (percentages) of the color:
    /// those it was given, or those of its channels.
    pub fn hsl_components(&self) -> (r: (i64, i64, i64))
        ensures
            r == hsl_of(*self),
    {
        match self.hsl {
            Some(t) => t,
            None => rgb_to_hsl(self.red, self.green, self.blue),
        }
    }

    /// The hue, in degrees.
    pub fn hue(&self) -> (r: Number)
        ensures
            r.value == hsl_of(*self).0,
            r.unit@ == "deg"@,
    {
        let (h, _, _) = self.hsl_components();
        Number { value: h, unit: String::from_str("deg") }
    }

    /// The saturation, as a percentage.
    pub fn saturation(&self) -> (r: Number)
        ensures
            r.value == hsl_of(*self).1,
            r.unit@ == "%"@,
    {
        let (_, s, _) = self.hsl_components();
        Number { value: s, unit: String::from_str("%") }
    }

    /// The lightness, as a percentage.
    pub fn lightness(&self) -> (r: Number)
        ensures
            r.value == hsl_of(*self).2,
            r.unit@ == "%"@,
    {
        let (_, _, l) = self.hsl_components();
        Number { value: l, unit: String::from_str("%") }
    }
}

/// `n / d` rounded towards zero.
pub open spec fn trunc_div(n: int, d: int) -> int {
    if n >= 0 {
        n / d
    } else {
        -((-n) / d)
    }
}

/// The hue, saturation and lightness of RGB channels: hue in degrees in
/// `[0, 360)`, the others as percentages, all fixed-point.
pub open spec fn rgb_hsl(r: int, g: int, b: int) -> (int, int, int) {
    let sc = SCALE as int;
    let max = if r >= g && r >= b {
        r
    } else if g >= b {
        g
    } else {
        b
    };
    let min = if r <= g && r <= b {
        r
    } else if g <= b {
        g
    } else {
        b
    };
    let d = max - min;
    let light = (max + min) * 100 * sc / 510;
    let sat = if d == 0 {
        0
    } else if max + min <= 255 {
        d * 100 * sc / (max + min)
    } else {
        d * 100 * sc / (510 - max - min)
    };
    let hue = if d == 0 {
        0
    } else if max == r {
        norm_degrees(trunc_div(60 * sc * (g - b), d))
    } else if max == g {
        norm_degrees(trunc_div(60 * sc * (b - r), d) + 120 * sc)
    } else {
        norm_degrees(trunc_div(60 * sc * (r - g), d) + 240 * sc)
    };
    (hue, sat, light)
}

pub open spec fn hsl_of(c: Color) -> (i64, i64, i64) {
    match c.hsl {
        Some(t) => t,
        None => {
            let t = rgb_hsl(c.red as int, c.green as int, c.blue as int);
            (t.0 as i64, t.1 as i64, t.2 as i64)
        },
    }
}

fn trunc_div_exec(n: i128, d: i128) -> (r: i128)
    requires
        -1_000_000_000_000_000 <= n <= 1_000_000_000_000_000,
        d >= 1,
    ensures
        r == trunc_div(n as int, d as int),
        -1_000_000_000_000_000 <= r <= 1_000_000_000_000_000,
{
    proof {
        if n >= 0 {
            vstd::arithmetic::div_mod::lemma_div_is_ordered_by_denominator(n as int, 1, d as int);
        } else {
            vstd::arithmetic::div_mod::lemma_div_is_ordered_by_denominator(-n, 1, d as int);
        }
    }
    if n >= 0 {
        n / d
    } else {
        -((-n) / d)
    }
}

fn rgb_to_hsl(r: u8, g: u8, b: u8) -> (t: (i64, i64, i64))
    ensures
        t.0 == rgb_hsl(r as int, g as int, b as int).0,
        t.1 == rgb_hsl(r as int, g as int, b as int).1,
        t.2 == rgb_hsl(r as int, g as int, b as int).2,
{
    let sc = SCALE as i128;
    let (ri, gi, bi) = (r as i128, g as i128, b as i128);
    let max = if ri >= gi && ri >= bi {
        ri
    } else if gi >= bi {
        gi
    } else {
        bi
    };
    let min = if ri <= gi && ri <= bi {
        ri
    } else if gi <= bi {
        gi
    } else {
        bi
    };
    let d = max - min;
    assert(0 <= (max + min) * 100 * sc <= 510 * 100 * SCALE) by (nonlinear_arith)
        requires
            0 <= max + min <= 510,
            sc == SCALE,
    ;
    let light = (max + min) * 100 * sc / 510;
    assert(0 <= d * 100 * sc <= 255 * 100 * SCALE) by (nonlinear_arith)
        requires
            0 <= d <= 255,
            sc == SCALE,
    ;
    let sat = if d == 0 {
        0
    } else if max + min <= 255 {
        d * 100 * sc / (max + min)
    } else {
        d * 100 * sc / (510 - max - min)
    };
    proof {
        if d != 0 {
            if max + min <= 255 {
                vstd::arithmetic::div_mod::lemma_div_is_ordered_by_denominator(
                    d * 100 * sc,
                    1,
                    max + min,
                );
            } else {
                vstd::arithmetic::div_mod::lemma_div_is_ordered_by_denominator(
                    d * 100 * sc,
                    1,
                    510 - max - min,
                );
            }
        }
    }
    let hue = if d == 0 {
        0
    } else if max == ri {
        assert(-255 * 60 * SCALE <= 60 * sc * (gi - bi) <= 255 * 60 * SCALE) by (nonlinear_arith)
            requires
                -255 <= gi - bi <= 255,
                sc == SCALE,
        ;
        norm_degrees_exec(trunc_div_exec(60 * sc * (gi - bi), d))
    } else if max == gi {
        assert(-255 * 60 * SCALE <= 60 * sc * (bi - ri) <= 255 * 60 * SCALE) by (nonlinear_arith)
            requires
                -255 <= bi - ri <= 255,
                sc == SCALE,
        ;
        norm_degrees_exec(trunc_div_exec(60 * sc * (bi - ri), d) + 120 * sc)
    } else {
        assert(-255 * 60 * SCALE <= 60 * sc * (ri - gi) <= 255 * 60 * SCALE) by (nonlinear_arith)
            requires
                -255 <= ri - gi <= 255,
                sc == SCALE,
        ;
        norm_degrees_exec(trunc_div_exec(60 * sc * (ri - gi), d) + 240 * sc)
    };
    (hue as i64, sat as i64, light as i64)
}

/// A channel mixed from its inverse, with `w` (a fixed-point percentage in
/// `[0, 100]`) of the inverse, rounded half up.
pub open spec fn inverted_channel(c: int, w: int) -> int {
    let sc = SCALE as int;
    ((255 - c) * w + c * (100 * sc - w) + 50 * sc) / (100 * sc)
}

/// The color mixed with its inverse by the weight `weight` (a percentage,
/// clamped to `[0, 100]`): a computed color with the same alpha.
pub open spec fn inverted(c: Color, weight: int) -> Color {
    let w = clamp(weight, 0, 100 * (SCALE as int));
    Color {
        red: inverted_channel(c.red as int, w) as u8,
        green: inverted_channel(c.green as int, w) as u8,
        blue: inverted_channel(c.blue as int, w) as u8,
        alpha: c.alpha,
        format: ColorFormat::Computed,
        hsl: None,
    }
}

fn inverted_channel_exec(c: u8, w: i128) -> (r: u8)
    requires
        0 <= w <= 100 * SCALE,
    ensures
        r == inverted_channel(c as int, w as int),
{
    let sc = SCALE as i128;
    let ci = c as i128;
    assert(0 <= (255 - ci) * w + ci * (100 * sc - w) <= 100 * SCALE * 255) by (nonlinear_arith)
        requires
            0 <= ci <= 255,
            0 <= w <= 100 * SCALE,
            sc == SCALE,
    ;
    let r = ((255 - ci) * w + ci * (100 * sc - w) + 50 * sc) / (100 * sc);
    proof {
        vstd::arithmetic::div_mod::lemma_div_is_ordered(
            (255 - ci) * w + ci * (100 * sc - w) + 50 * sc,
            100 * SCALE * 255 + 50 * SCALE,
            100 * SCALE,
        );
        vstd::arithmetic::div_mod::lemma_fundamental_div_mod_converse(
            100 * SCALE * 255 + 50 * SCALE,
            100 * SCALE,
            255,
            50 * SCALE,
        );
    }
    r as u8
}

impl Color {
    /// `invert(color, weight)`.
    pub fn invert(&self, weight: i64) -> (r: Color)
        ensures
            r == inverted(*self, weight as int),
    {
        let sc = SCALE as i128;
        let w = clamp_exec(weight as i128, 0, 100 * sc);
        Color {
            red: inverted_channel_exec(self.red, w),
            green: inverted_channel_exec(self.green, w),
            blue: inverted_channel_exec(self.blue, w),
            alpha: self.alpha,
            format: ColorFormat::Computed,
            hsl: None,
        }
    }
}

/// A color written as a literal, such as a hex literal with its digit
/// count and letter case, is printed exactly as written, whatever the name
/// table.
pub proof fn lemma_literal_kept(c: Color, names: Map<Seq<char>, u32>)
    requires
        c.format is Literal,
    ensures
        color_text(c, names) == c.format->Literal_0@,
{
}

/// An opaque computed color whose channels some name of a one-to-one table
/// holds is printed as that name, never as hex.
pub proof fn lemma_named_output(c: Color, names: Map<Seq<char>, u32>, k: Seq<char>)
    requires
        injective_pairs(names),
        c.format is Computed,
        c.alpha == SCALE,
        names.contains_key(k),
        names[k] == pack(c.red as int, c.green as int, c.blue as int, 255),
    ensures
        color_text(c, names) == k,
{
    let key = pack(c.red as int, c.green as int, c.blue as int, 255);
    let j = choose|j: Seq<char>| names.contains_key(j) && names[j] == key;
    assert(names[j] == names[k]);
}

/// Alpha is clamped to `[0, 1]`: a negative input gives 0, and 100% (or 1)
/// and more give 1.
pub proof fn lemma_alpha_clamped(v: int, percent: bool)
    ensures
        0 <= alpha_of(v, percent) <= SCALE,
        v < 0 ==> alpha_of(v, percent) == 0,
        percent && v >= 100 * SCALE ==> alpha_of(v, percent) == SCALE,
        !percent && v >= SCALE ==> alpha_of(v, percent) == SCALE,
{
    let c = clamp(v, 0, 100 * (SCALE as int));
    vstd::arithmetic::div_mod::lemma_div_is_ordered(c + 50, 100 * SCALE + 50, 100);
    vstd::arithmetic::div_mod::lemma_fundamental_div_mod_converse(100 * SCALE + 50, 100, SCALE as int, 50);
}

/// A percentage channel in `[0%, 100%]` is the nearest integer to
/// `255 * p / 100`, halves rounding up; beyond that range it is clamped to
/// 0 or 255.
pub proof fn lemma_percent_channel(v: int)
    ensures
        0 <= v <= 100 * SCALE ==> {
            let r = channel_of(v, true);
            &&& r * (100 * SCALE) <= v * 255 + 50 * SCALE
            &&& v * 255 + 50 * SCALE < (r + 1) * (100 * SCALE)
        },
        v < 0 ==> channel_of(v, true) == 0,
        v > 100 * SCALE ==> channel_of(v, true) == 255,
{
    let d = 100 * (SCALE as int);
    if 0 <= v <= d {
        vstd::arithmetic::div_mod::lemma_fundamental_div_mod(v * 255 + 50 * SCALE, d);
        vstd::arithmetic::div_mod::lemma_mod_bound(v * 255 + 50 * SCALE, d);
        let r = channel_of(v, true);
        assert(r == (v * 255 + 50 * SCALE) / d);
        assert(r * d == d * r) by (nonlinear_arith);
        assert((r + 1) * d == d * r + d) by (nonlinear_arith);
    }
    if v < 0 {
        vstd::arithmetic::div_mod::lemma_fundamental_div_mod_converse(50 * SCALE, d, 0, 50 * SCALE);
    }
    if v > d {
        vstd::arithmetic::div_mod::lemma_fundamental_div_mod_converse(
            d * 255 + 50 * SCALE,
            d,
            255,
            50 * SCALE,
        );
    }
}


} // verus!
