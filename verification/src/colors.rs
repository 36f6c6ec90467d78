//! The named colors of CSS: from a name to its channels and back.
use crate::text::is_str;
use vstd::prelude::*;

verus! {

/// The red, green and blue channels of the color that `name` names, if it
/// is the lower-case name of a CSS color.
pub open spec fn color_of_name(name: Seq<char>) -> Option<(u8, u8, u8)> {
    if name == "aliceblue"@ {
        Some((240u8, 248u8, 255u8))
    } else if name == "antiquewhite"@ {
        Some((250u8, 235u8, 215u8))
    } else if name == "aqua"@ {
        Some((0u8, 255u8, 255u8))
    } else if name == "aquamarine"@ {
        Some((127u8, 255u8, 212u8))
    } else if name == "azure"@ {
        Some((240u8, 255u8, 255u8))
    } else if name == "beige"@ {
        Some((245u8, 245u8, 220u8))
    } else if name == "bisque"@ {
        Some((255u8, 228u8, 196u8))
    } else if name == "black"@ {
        Some((0u8, 0u8, 0u8))
    } else if name == "blanchedalmond"@ {
        Some((255u8, 235u8, 205u8))
    } else if name == "blue"@ {
        Some((0u8, 0u8, 255u8))
    } else if name == "blueviolet"@ {
        Some((138u8, 43u8, 226u8))
    } else if name == "brown"@ {
        Some((165u8, 42u8, 42u8))
    } else if name == "burlywood"@ {
        Some((222u8, 184u8, 135u8))
    } else if name == "cadetblue"@ {
        Some((95u8, 158u8, 160u8))
    } else if name == "chartreuse"@ {
        Some((127u8, 255u8, 0u8))
    } else if name == "chocolate"@ {
        Some((210u8, 105u8, 30u8))
    } else if name == "coral"@ {
        Some((255u8, 127u8, 80u8))
    } else if name == "cornflowerblue"@ {
        Some((100u8, 149u8, 237u8))
    } else if name == "cornsilk"@ {
        Some((255u8, 248u8, 220u8))
    } else if name == "crimson"@ {
        Some((220u8, 20u8, 60u8))
    } else if name == "cyan"@ {
        Some((0u8, 255u8, 255u8))
    } else if name == "darkblue"@ {
        Some((0u8, 0u8, 139u8))
    } else if name == "darkcyan"@ {
        Some((0u8, 139u8, 139u8))
    } else if name == "darkgoldenrod"@ {
        Some((184u8, 134u8, 11u8))
    } else if name == "darkgray"@ {
        Some((169u8, 169u8, 169u8))
    } else if name == "darkgreen"@ {
        Some((0u8, 100u8, 0u8))
    } else if name == "darkgrey"@ {
        Some((169u8, 169u8, 169u8))
    } else if name == "darkkhaki"@ {
        Some((189u8, 183u8, 107u8))
    } else if name == "darkmagenta"@ {
        Some((139u8, 0u8, 139u8))
    } else if name == "darkolivegreen"@ {
        Some((85u8, 107u8, 47u8))
    } else if name == "darkorange"@ {
        Some((255u8, 140u8, 0u8))
    } else if name == "darkorchid"@ {
        Some((153u8, 50u8, 204u8))
    } else if name == "darkred"@ {
        Some((139u8, 0u8, 0u8))
    } else if name == "darksalmon"@ {
        Some((233u8, 150u8, 122u8))
    } else if name == "darkseagreen"@ {
        Some((143u8, 188u8, 143u8))
    } else if name == "darkslateblue"@ {
        Some((72u8, 61u8, 139u8))
    } else if name == "darkslategray"@ {
        Some((47u8, 79u8, 79u8))
    } else if name == "darkslategrey"@ {
        Some((47u8, 79u8, 79u8))
    } else if name == "darkturquoise"@ {
        Some((0u8, 206u8, 209u8))
    } else if name == "darkviolet"@ {
        Some((148u8, 0u8, 211u8))
    } else if name == "deeppink"@ {
        Some((255u8, 20u8, 147u8))
    } else if name == "deepskyblue"@ {
        Some((0u8, 191u8, 255u8))
    } else if name == "dimgray"@ {
        Some((105u8, 105u8, 105u8))
    } else if name == "dimgrey"@ {
        Some((105u8, 105u8, 105u8))
    } else if name == "dodgerblue"@ {
        Some((30u8, 144u8, 255u8))
    } else if name == "firebrick"@ {
        Some((178u8, 34u8, 34u8))
    } else if name == "floralwhite"@ {
        Some((255u8, 250u8, 240u8))
    } else if name == "forestgreen"@ {
        Some((34u8, 139u8, 34u8))
    } else if name == "fuchsia"@ {
        Some((255u8, 0u8, 255u8))
    } else if name == "gainsboro"@ {
        Some((220u8, 220u8, 220u8))
    } else if name == "ghostwhite"@ {
        Some((248u8, 248u8, 255u8))
    } else if name == "gold"@ {
        Some((255u8, 215u8, 0u8))
    } else if name == "goldenrod"@ {
        Some((218u8, 165u8, 32u8))
    } else if name == "gray"@ {
        Some((128u8, 128u8, 128u8))
    } else if name == "green"@ {
        Some((0u8, 128u8, 0u8))
    } else if name == "greenyellow"@ {
        Some((173u8, 255u8, 47u8))
    } else if name == "grey"@ {
        Some((128u8, 128u8, 128u8))
    } else if name == "honeydew"@ {
        Some((240u8, 255u8, 240u8))
    } else if name == "hotpink"@ {
        Some((255u8, 105u8, 180u8))
    } else if name == "indianred"@ {
        Some((205u8, 92u8, 92u8))
    } else if name == "indigo"@ {
        Some((75u8, 0u8, 130u8))
    } else if name == "ivory"@ {
        Some((255u8, 255u8, 240u8))
    } else if name == "khaki"@ {
        Some((240u8, 230u8, 140u8))
    } else if name == "lavender"@ {
        Some((230u8, 230u8, 250u8))
    } else if name == "lavenderblush"@ {
        Some((255u8, 240u8, 245u8))
    } else if name == "lawngreen"@ {
        Some((124u8, 252u8, 0u8))
    } else if name == "lemonchiffon"@ {
        Some((255u8, 250u8, 205u8))
    } else if name == "lightblue"@ {
        Some((173u8, 216u8, 230u8))
    } else if name == "lightcoral"@ {
        Some((240u8, 128u8, 128u8))
    } else if name == "lightcyan"@ {
        Some((224u8, 255u8, 255u8))
    } else if name == "lightgoldenrodyellow"@ {
        Some((250u8, 250u8, 210u8))
    } else if name == "lightgray"@ {
        Some((211u8, 211u8, 211u8))
    } else if name == "lightgreen"@ {
        Some((144u8, 238u8, 144u8))
    } else if name == "lightgrey"@ {
        Some((211u8, 211u8, 211u8))
    } else if name == "lightpink"@ {
        Some((255u8, 182u8, 193u8))
    } else if name == "lightsalmon"@ {
        Some((255u8, 160u8, 122u8))
    } else if name == "lightseagreen"@ {
        Some((32u8, 178u8, 170u8))
    } else if name == "lightskyblue"@ {
        Some((135u8, 206u8, 250u8))
    } else if name == "lightslategray"@ {
        Some((119u8, 136u8, 153u8))
    } else if name == "lightslategrey"@ {
        Some((119u8, 136u8, 153u8))
    } else if name == "lightsteelblue"@ {
        Some((176u8, 196u8, 222u8))
    } else if name == "lightyellow"@ {
        Some((255u8, 255u8, 224u8))
    } else if name == "lime"@ {
        Some((0u8, 255u8, 0u8))
    } else if name == "limegreen"@ {
        Some((50u8, 205u8, 50u8))
    } else if name == "linen"@ {
        Some((250u8, 240u8, 230u8))
    } else if name == "magenta"@ {
        Some((255u8, 0u8, 255u8))
    } else if name == "maroon"@ {
        Some((128u8, 0u8, 0u8))
    } else if name == "mediumaquamarine"@ {
        Some((102u8, 205u8, 170u8))
    } else if name == "mediumblue"@ {
        Some((0u8, 0u8, 205u8))
    } else if name == "mediumorchid"@ {
        Some((186u8, 85u8, 211u8))
    } else if name == "mediumpurple"@ {
        Some((147u8, 112u8, 219u8))
    } else if name == "mediumseagreen"@ {
        Some((60u8, 179u8, 113u8))
    } else if name == "mediumslateblue"@ {
        Some((123u8, 104u8, 238u8))
    } else if name == "mediumspringgreen"@ {
        Some((0u8, 250u8, 154u8))
    } else if name == "mediumturquoise"@ {
        Some((72u8, 209u8, 204u8))
    } else if name == "mediumvioletred"@ {
        Some((199u8, 21u8, 133u8))
    } else if name == "midnightblue"@ {
        Some((25u8, 25u8, 112u8))
    } else if name == "mintcream"@ {
        Some((245u8, 255u8, 250u8))
    } else if name == "mistyrose"@ {
        Some((255u8, 228u8, 225u8))
    } else if name == "moccasin"@ {
        Some((255u8, 228u8, 181u8))
    } else if name == "navajowhite"@ {
        Some((255u8, 222u8, 173u8))
    } else if name == "navy"@ {
        Some((0u8, 0u8, 128u8))
    } else if name == "oldlace"@ {
        Some((253u8, 245u8, 230u8))
    } else if name == "olive"@ {
        Some((128u8, 128u8, 0u8))
    } else if name == "olivedrab"@ {
        Some((107u8, 142u8, 35u8))
    } else if name == "orange"@ {
        Some((255u8, 165u8, 0u8))
    } else if name == "orangered"@ {
        Some((255u8, 69u8, 0u8))
    } else if name == "orchid"@ {
        Some((218u8, 112u8, 214u8))
    } else if name == "palegoldenrod"@ {
        Some((238u8, 232u8, 170u8))
    } else if name == "palegreen"@ {
        Some((152u8, 251u8, 152u8))
    } else if name == "paleturquoise"@ {
        Some((175u8, 238u8, 238u8))
    } else if name == "palevioletred"@ {
        Some((219u8, 112u8, 147u8))
    } else if name == "papayawhip"@ {
        Some((255u8, 239u8, 213u8))
    } else if name == "peachpuff"@ {
        Some((255u8, 218u8, 185u8))
    } else if name == "peru"@ {
        Some((205u8, 133u8, 63u8))
    } else if name == "pink"@ {
        Some((255u8, 192u8, 203u8))
    } else if name == "plum"@ {
        Some((221u8, 160u8, 221u8))
    } else if name == "powderblue"@ {
        Some((176u8, 224u8, 230u8))
    } else if name == "purple"@ {
        Some((128u8, 0u8, 128u8))
    } else if name == "red"@ {
        Some((255u8, 0u8, 0u8))
    } else if name == "rosybrown"@ {
        Some((188u8, 143u8, 143u8))
    } else if name == "royalblue"@ {
        Some((65u8, 105u8, 225u8))
    } else if name == "saddlebrown"@ {
        Some((139u8, 69u8, 19u8))
    } else if name == "salmon"@ {
        Some((250u8, 128u8, 114u8))
    } else if name == "sandybrown"@ {
        Some((244u8, 164u8, 96u8))
    } else if name == "seagreen"@ {
        Some((46u8, 139u8, 87u8))
    } else if name == "seashell"@ {
        Some((255u8, 245u8, 238u8))
    } else if name == "sienna"@ {
        Some((160u8, 82u8, 45u8))
    } else if name == "silver"@ {
        Some((192u8, 192u8, 192u8))
    } else if name == "skyblue"@ {
        Some((135u8, 206u8, 235u8))
    } else if name == "slateblue"@ {
        Some((106u8, 90u8, 205u8))
    } else if name == "slategray"@ {
        Some((112u8, 128u8, 144u8))
    } else if name == "slategrey"@ {
        Some((112u8, 128u8, 144u8))
    } else if name == "snow"@ {
        Some((255u8, 250u8, 250u8))
    } else if name == "springgreen"@ {
        Some((0u8, 255u8, 127u8))
    } else if name == "steelblue"@ {
        Some((70u8, 130u8, 180u8))
    } else if name == "tan"@ {
        Some((210u8, 180u8, 140u8))
    } else if name == "teal"@ {
        Some((0u8, 128u8, 128u8))
    } else if name == "thistle"@ {
        Some((216u8, 191u8, 216u8))
    } else if name == "tomato"@ {
        Some((255u8, 99u8, 71u8))
    } else if name == "turquoise"@ {
        Some((64u8, 224u8, 208u8))
    } else if name == "violet"@ {
        Some((238u8, 130u8, 238u8))
    } else if name == "wheat"@ {
        Some((245u8, 222u8, 179u8))
    } else if name == "white"@ {
        Some((255u8, 255u8, 255u8))
    } else if name == "whitesmoke"@ {
        Some((245u8, 245u8, 245u8))
    } else if name == "yellow"@ {
        Some((255u8, 255u8, 0u8))
    } else if name == "yellowgreen"@ {
        Some((154u8, 205u8, 50u8))
    } else {
        None
    }
}

/// The name under which a color with the given channels is written, if
/// CSS has a name for it. Of two names for one color, the table keeps
/// `cyan`, `magenta` and the spelling `gray`.
pub open spec fn name_of_color(r: u8, g: u8, b: u8) -> Option<&'static str> {
    if r == 240 && g == 248 && b == 255 {
        Some("aliceblue")
    } else if r == 250 && g == 235 && b == 215 {
        Some("antiquewhite")
    } else if r == 127 && g == 255 && b == 212 {
        Some("aquamarine")
    } else if r == 240 && g == 255 && b == 255 {
        Some("azure")
    } else if r == 245 && g == 245 && b == 220 {
        Some("beige")
    } else if r == 255 && g == 228 && b == 196 {
        Some("bisque")
    } else if r == 0 && g == 0 && b == 0 {
        Some("black")
    } else if r == 255 && g == 235 && b == 205 {
        Some("blanchedalmond")
    } else if r == 0 && g == 0 && b == 255 {
        Some("blue")
    } else if r == 138 && g == 43 && b == 226 {
        Some("blueviolet")
    } else if r == 165 && g == 42 && b == 42 {
        Some("brown")
    } else if r == 222 && g == 184 && b == 135 {
        Some("burlywood")
    } else if r == 95 && g == 158 && b == 160 {
        Some("cadetblue")
    } else if r == 127 && g == 255 && b == 0 {
        Some("chartreuse")
    } else if r == 210 && g == 105 && b == 30 {
        Some("chocolate")
    } else if r == 255 && g == 127 && b == 80 {
        Some("coral")
    } else if r == 100 && g == 149 && b == 237 {
        Some("cornflowerblue")
    } else if r == 255 && g == 248 && b == 220 {
        Some("cornsilk")
    } else if r == 220 && g == 20 && b == 60 {
        Some("crimson")
    } else if r == 0 && g == 255 && b == 255 {
        Some("cyan")
    } else if r == 0 && g == 0 && b == 139 {
        Some("darkblue")
    } else if r == 0 && g == 139 && b == 139 {
        Some("darkcyan")
    } else if r == 184 && g == 134 && b == 11 {
        Some("darkgoldenrod")
    } else if r == 169 && g == 169 && b == 169 {
        Some("darkgray")
    } else if r == 0 && g == 100 && b == 0 {
        Some("darkgreen")
    } else if r == 189 && g == 183 && b == 107 {
        Some("darkkhaki")
    } else if r == 139 && g == 0 && b == 139 {
        Some("darkmagenta")
    } else if r == 85 && g == 107 && b == 47 {
        Some("darkolivegreen")
    } else if r == 255 && g == 140 && b == 0 {
        Some("darkorange")
    } else if r == 153 && g == 50 && b == 204 {
        Some("darkorchid")
    } else if r == 139 && g == 0 && b == 0 {
        Some("darkred")
    } else if r == 233 && g == 150 && b == 122 {
        Some("darksalmon")
    } else if r == 143 && g == 188 && b == 143 {
        Some("darkseagreen")
    } else if r == 72 && g == 61 && b == 139 {
        Some("darkslateblue")
    } else if r == 47 && g == 79 && b == 79 {
        Some("darkslategray")
    } else if r == 0 && g == 206 && b == 209 {
        Some("darkturquoise")
    } else if r == 148 && g == 0 && b == 211 {
        Some("darkviolet")
    } else if r == 255 && g == 20 && b == 147 {
        Some("deeppink")
    } else if r == 0 && g == 191 && b == 255 {
        Some("deepskyblue")
    } else if r == 105 && g == 105 && b == 105 {
        Some("dimgray")
    } else if r == 30 && g == 144 && b == 255 {
        Some("dodgerblue")
    } else if r == 178 && g == 34 && b == 34 {
        Some("firebrick")
    } else if r == 255 && g == 250 && b == 240 {
        Some("floralwhite")
    } else if r == 34 && g == 139 && b == 34 {
        Some("forestgreen")
    } else if r == 220 && g == 220 && b == 220 {
        Some("gainsboro")
    } else if r == 248 && g == 248 && b == 255 {
        Some("ghostwhite")
    } else if r == 255 && g == 215 && b == 0 {
        Some("gold")
    } else if r == 218 && g == 165 && b == 32 {
        Some("goldenrod")
    } else if r == 128 && g == 128 && b == 128 {
        Some("gray")
    } else if r == 0 && g == 128 && b == 0 {
        Some("green")
    } else if r == 173 && g == 255 && b == 47 {
        Some("greenyellow")
    } else if r == 240 && g == 255 && b == 240 {
        Some("honeydew")
    } else if r == 255 && g == 105 && b == 180 {
        Some("hotpink")
    } else if r == 205 && g == 92 && b == 92 {
        Some("indianred")
    } else if r == 75 && g == 0 && b == 130 {
        Some("indigo")
    } else if r == 255 && g == 255 && b == 240 {
        Some("ivory")
    } else if r == 240 && g == 230 && b == 140 {
        Some("khaki")
    } else if r == 230 && g == 230 && b == 250 {
        Some("lavender")
    } else if r == 255 && g == 240 && b == 245 {
        Some("lavenderblush")
    } else if r == 124 && g == 252 && b == 0 {
        Some("lawngreen")
    } else if r == 255 && g == 250 && b == 205 {
        Some("lemonchiffon")
    } else if r == 173 && g == 216 && b == 230 {
        Some("lightblue")
    } else if r == 240 && g == 128 && b == 128 {
        Some("lightcoral")
    } else if r == 224 && g == 255 && b == 255 {
        Some("lightcyan")
    } else if r == 250 && g == 250 && b == 210 {
        Some("lightgoldenrodyellow")
    } else if r == 211 && g == 211 && b == 211 {
        Some("lightgray")
    } else if r == 144 && g == 238 && b == 144 {
        Some("lightgreen")
    } else if r == 255 && g == 182 && b == 193 {
        Some("lightpink")
    } else if r == 255 && g == 160 && b == 122 {
        Some("lightsalmon")
    } else if r == 32 && g == 178 && b == 170 {
        Some("lightseagreen")
    } else if r == 135 && g == 206 && b == 250 {
        Some("lightskyblue")
    } else if r == 119 && g == 136 && b == 153 {
        Some("lightslategray")
    } else if r == 176 && g == 196 && b == 222 {
        Some("lightsteelblue")
    } else if r == 255 && g == 255 && b == 224 {
        Some("lightyellow")
    } else if r == 0 && g == 255 && b == 0 {
        Some("lime")
    } else if r == 50 && g == 205 && b == 50 {
        Some("limegreen")
    } else if r == 250 && g == 240 && b == 230 {
        Some("linen")
    } else if r == 255 && g == 0 && b == 255 {
        Some("magenta")
    } else if r == 128 && g == 0 && b == 0 {
        Some("maroon")
    } else if r == 102 && g == 205 && b == 170 {
        Some("mediumaquamarine")
    } else if r == 0 && g == 0 && b == 205 {
        Some("mediumblue")
    } else if r == 186 && g == 85 && b == 211 {
        Some("mediumorchid")
    } else if r == 147 && g == 112 && b == 219 {
        Some("mediumpurple")
    } else if r == 60 && g == 179 && b == 113 {
        Some("mediumseagreen")
    } else if r == 123 && g == 104 && b == 238 {
        Some("mediumslateblue")
    } else if r == 0 && g == 250 && b == 154 {
        Some("mediumspringgreen")
    } else if r == 72 && g == 209 && b == 204 {
        Some("mediumturquoise")
    } else if r == 199 && g == 21 && b == 133 {
        Some("mediumvioletred")
    } else if r == 25 && g == 25 && b == 112 {
        Some("midnightblue")
    } else if r == 245 && g == 255 && b == 250 {
        Some("mintcream")
    } else if r == 255 && g == 228 && b == 225 {
        Some("mistyrose")
    } else if r == 255 && g == 228 && b == 181 {
        Some("moccasin")
    } else if r == 255 && g == 222 && b == 173 {
        Some("navajowhite")
    } else if r == 0 && g == 0 && b == 128 {
        Some("navy")
    } else if r == 253 && g == 245 && b == 230 {
        Some("oldlace")
    } else if r == 128 && g == 128 && b == 0 {
        Some("olive")
    } else if r == 107 && g == 142 && b == 35 {
        Some("olivedrab")
    } else if r == 255 && g == 165 && b == 0 {
        Some("orange")
    } else if r == 255 && g == 69 && b == 0 {
        Some("orangered")
    } else if r == 218 && g == 112 && b == 214 {
        Some("orchid")
    } else if r == 238 && g == 232 && b == 170 {
        Some("palegoldenrod")
    } else if r == 152 && g == 251 && b == 152 {
        Some("palegreen")
    } else if r == 175 && g == 238 && b == 238 {
        Some("paleturquoise")
    } else if r == 219 && g == 112 && b == 147 {
        Some("palevioletred")
    } else if r == 255 && g == 239 && b == 213 {
        Some("papayawhip")
    } else if r == 255 && g == 218 && b == 185 {
        Some("peachpuff")
    } else if r == 205 && g == 133 && b == 63 {
        Some("peru")
    } else if r == 255 && g == 192 && b == 203 {
        Some("pink")
    } else if r == 221 && g == 160 && b == 221 {
        Some("plum")
    } else if r == 176 && g == 224 && b == 230 {
        Some("powderblue")
    } else if r == 128 && g == 0 && b == 128 {
        Some("purple")
    } else if r == 255 && g == 0 && b == 0 {
        Some("red")
    } else if r == 188 && g == 143 && b == 143 {
        Some("rosybrown")
    } else if r == 65 && g == 105 && b == 225 {
        Some("royalblue")
    } else if r == 139 && g == 69 && b == 19 {
        Some("saddlebrown")
    } else if r == 250 && g == 128 && b == 114 {
        Some("salmon")
    } else if r == 244 && g == 164 && b == 96 {
        Some("sandybrown")
    } else if r == 46 && g == 139 && b == 87 {
        Some("seagreen")
    } else if r == 255 && g == 245 && b == 238 {
        Some("seashell")
    } else if r == 160 && g == 82 && b == 45 {
        Some("sienna")
    } else if r == 192 && g == 192 && b == 192 {
        Some("silver")
    } else if r == 135 && g == 206 && b == 235 {
        Some("skyblue")
    } else if r == 106 && g == 90 && b == 205 {
        Some("slateblue")
    } else if r == 112 && g == 128 && b == 144 {
        Some("slategray")
    } else if r == 255 && g == 250 && b == 250 {
        Some("snow")
    } else if r == 0 && g == 255 && b == 127 {
        Some("springgreen")
    } else if r == 70 && g == 130 && b == 180 {
        Some("steelblue")
    } else if r == 210 && g == 180 && b == 140 {
        Some("tan")
    } else if r == 0 && g == 128 && b == 128 {
        Some("teal")
    } else if r == 216 && g == 191 && b == 216 {
        Some("thistle")
    } else if r == 255 && g == 99 && b == 71 {
        Some("tomato")
    } else if r == 64 && g == 224 && b == 208 {
        Some("turquoise")
    } else if r == 238 && g == 130 && b == 238 {
        Some("violet")
    } else if r == 245 && g == 222 && b == 179 {
        Some("wheat")
    } else if r == 255 && g == 255 && b == 255 {
        Some("white")
    } else if r == 245 && g == 245 && b == 245 {
        Some("whitesmoke")
    } else if r == 255 && g == 255 && b == 0 {
        Some("yellow")
    } else if r == 154 && g == 205 && b == 50 {
        Some("yellowgreen")
    } else {
        None
    }
}

/// The channels of the CSS color called `name`.
pub fn name_to_rgb(name: &Vec<char>) -> (c: Option<(u8, u8, u8)>)
    ensures
        c == color_of_name(name@),
{
    if is_str(name, "aliceblue") {
        Some((240u8, 248u8, 255u8))
    } else if is_str(name, "antiquewhite") {
        Some((250u8, 235u8, 215u8))
    } else if is_str(name, "aqua") {
        Some((0u8, 255u8, 255u8))
    } else if is_str(name, "aquamarine") {
        Some((127u8, 255u8, 212u8))
    } else if is_str(name, "azure") {
        Some((240u8, 255u8, 255u8))
    } else if is_str(name, "beige") {
        Some((245u8, 245u8, 220u8))
    } else if is_str(name, "bisque") {
        Some((255u8, 228u8, 196u8))
    } else if is_str(name, "black") {
        Some((0u8, 0u8, 0u8))
    } else if is_str(name, "blanchedalmond") {
        Some((255u8, 235u8, 205u8))
    } else if is_str(name, "blue") {
        Some((0u8, 0u8, 255u8))
    } else if is_str(name, "blueviolet") {
        Some((138u8, 43u8, 226u8))
    } else if is_str(name, "brown") {
        Some((165u8, 42u8, 42u8))
    } else if is_str(name, "burlywood") {
        Some((222u8, 184u8, 135u8))
    } else if is_str(name, "cadetblue") {
        Some((95u8, 158u8, 160u8))
    } else if is_str(name, "chartreuse") {
        Some((127u8, 255u8, 0u8))
    } else if is_str(name, "chocolate") {
        Some((210u8, 105u8, 30u8))
    } else if is_str(name, "coral") {
        Some((255u8, 127u8, 80u8))
    } else if is_str(name, "cornflowerblue") {
        Some((100u8, 149u8, 237u8))
    } else if is_str(name, "cornsilk") {
        Some((255u8, 248u8, 220u8))
    } else if is_str(name, "crimson") {
        Some((220u8, 20u8, 60u8))
    } else if is_str(name, "cyan") {
        Some((0u8, 255u8, 255u8))
    } else if is_str(name, "darkblue") {
        Some((0u8, 0u8, 139u8))
    } else if is_str(name, "darkcyan") {
        Some((0u8, 139u8, 139u8))
    } else if is_str(name, "darkgoldenrod") {
        Some((184u8, 134u8, 11u8))
    } else if is_str(name, "darkgray") {
        Some((169u8, 169u8, 169u8))
    } else if is_str(name, "darkgreen") {
        Some((0u8, 100u8, 0u8))
    } else if is_str(name, "darkgrey") {
        Some((169u8, 169u8, 169u8))
    } else if is_str(name, "darkkhaki") {
        Some((189u8, 183u8, 107u8))
    } else if is_str(name, "darkmagenta") {
        Some((139u8, 0u8, 139u8))
    } else if is_str(name, "darkolivegreen") {
        Some((85u8, 107u8, 47u8))
    } else if is_str(name, "darkorange") {
        Some((255u8, 140u8, 0u8))
    } else if is_str(name, "darkorchid") {
        Some((153u8, 50u8, 204u8))
    } else if is_str(name, "darkred") {
        Some((139u8, 0u8, 0u8))
    } else if is_str(name, "darksalmon") {
        Some((233u8, 150u8, 122u8))
    } else if is_str(name, "darkseagreen") {
        Some((143u8, 188u8, 143u8))
    } else if is_str(name, "darkslateblue") {
        Some((72u8, 61u8, 139u8))
    } else if is_str(name, "darkslategray") {
        Some((47u8, 79u8, 79u8))
    } else if is_str(name, "darkslategrey") {
        Some((47u8, 79u8, 79u8))
    } else if is_str(name, "darkturquoise") {
        Some((0u8, 206u8, 209u8))
    } else if is_str(name, "darkviolet") {
        Some((148u8, 0u8, 211u8))
    } else if is_str(name, "deeppink") {
        Some((255u8, 20u8, 147u8))
    } else if is_str(name, "deepskyblue") {
        Some((0u8, 191u8, 255u8))
    } else if is_str(name, "dimgray") {
        Some((105u8, 105u8, 105u8))
    } else if is_str(name, "dimgrey") {
        Some((105u8, 105u8, 105u8))
    } else if is_str(name, "dodgerblue") {
        Some((30u8, 144u8, 255u8))
    } else if is_str(name, "firebrick") {
        Some((178u8, 34u8, 34u8))
    } else if is_str(name, "floralwhite") {
        Some((255u8, 250u8, 240u8))
    } else if is_str(name, "forestgreen") {
        Some((34u8, 139u8, 34u8))
    } else if is_str(name, "fuchsia") {
        Some((255u8, 0u8, 255u8))
    } else if is_str(name, "gainsboro") {
        Some((220u8, 220u8, 220u8))
    } else if is_str(name, "ghostwhite") {
        Some((248u8, 248u8, 255u8))
    } else if is_str(name, "gold") {
        Some((255u8, 215u8, 0u8))
    } else if is_str(name, "goldenrod") {
        Some((218u8, 165u8, 32u8))
    } else if is_str(name, "gray") {
        Some((128u8, 128u8, 128u8))
    } else if is_str(name, "green") {
        Some((0u8, 128u8, 0u8))
    } else if is_str(name, "greenyellow") {
        Some((173u8, 255u8, 47u8))
    } else if is_str(name, "grey") {
        Some((128u8, 128u8, 128u8))
    } else if is_str(name, "honeydew") {
        Some((240u8, 255u8, 240u8))
    } else if is_str(name, "hotpink") {
        Some((255u8, 105u8, 180u8))
    } else if is_str(name, "indianred") {
        Some((205u8, 92u8, 92u8))
    } else if is_str(name, "indigo") {
        Some((75u8, 0u8, 130u8))
    } else if is_str(name, "ivory") {
        Some((255u8, 255u8, 240u8))
    } else if is_str(name, "khaki") {
        Some((240u8, 230u8, 140u8))
    } else if is_str(name, "lavender") {
        Some((230u8, 230u8, 250u8))
    } else if is_str(name, "lavenderblush") {
        Some((255u8, 240u8, 245u8))
    } else if is_str(name, "lawngreen") {
        Some((124u8, 252u8, 0u8))
    } else if is_str(name, "lemonchiffon") {
        Some((255u8, 250u8, 205u8))
    } else if is_str(name, "lightblue") {
        Some((173u8, 216u8, 230u8))
    } else if is_str(name, "lightcoral") {
        Some((240u8, 128u8, 128u8))
    } else if is_str(name, "lightcyan") {
        Some((224u8, 255u8, 255u8))
    } else if is_str(name, "lightgoldenrodyellow") {
        Some((250u8, 250u8, 210u8))
    } else if is_str(name, "lightgray") {
        Some((211u8, 211u8, 211u8))
    } else if is_str(name, "lightgreen") {
        Some((144u8, 238u8, 144u8))
    } else if is_str(name, "lightgrey") {
        Some((211u8, 211u8, 211u8))
    } else if is_str(name, "lightpink") {
        Some((255u8, 182u8, 193u8))
    } else if is_str(name, "lightsalmon") {
        Some((255u8, 160u8, 122u8))
    } else if is_str(name, "lightseagreen") {
        Some((32u8, 178u8, 170u8))
    } else if is_str(name, "lightskyblue") {
        Some((135u8, 206u8, 250u8))
    } else if is_str(name, "lightslategray") {
        Some((119u8, 136u8, 153u8))
    } else if is_str(name, "lightslategrey") {
        Some((119u8, 136u8, 153u8))
    } else if is_str(name, "lightsteelblue") {
        Some((176u8, 196u8, 222u8))
    } else if is_str(name, "lightyellow") {
        Some((255u8, 255u8, 224u8))
    } else if is_str(name, "lime") {
        Some((0u8, 255u8, 0u8))
    } else if is_str(name, "limegreen") {
        Some((50u8, 205u8, 50u8))
    } else if is_str(name, "linen") {
        Some((250u8, 240u8, 230u8))
    } else if is_str(name, "magenta") {
        Some((255u8, 0u8, 255u8))
    } else if is_str(name, "maroon") {
        Some((128u8, 0u8, 0u8))
    } else if is_str(name, "mediumaquamarine") {
        Some((102u8, 205u8, 170u8))
    } else if is_str(name, "mediumblue") {
        Some((0u8, 0u8, 205u8))
    } else if is_str(name, "mediumorchid") {
        Some((186u8, 85u8, 211u8))
    } else if is_str(name, "mediumpurple") {
        Some((147u8, 112u8, 219u8))
    } else if is_str(name, "mediumseagreen") {
        Some((60u8, 179u8, 113u8))
    } else if is_str(name, "mediumslateblue") {
        Some((123u8, 104u8, 238u8))
    } else if is_str(name, "mediumspringgreen") {
        Some((0u8, 250u8, 154u8))
    } else if is_str(name, "mediumturquoise") {
        Some((72u8, 209u8, 204u8))
    } else if is_str(name, "mediumvioletred") {
        Some((199u8, 21u8, 133u8))
    } else if is_str(name, "midnightblue") {
        Some((25u8, 25u8, 112u8))
    } else if is_str(name, "mintcream") {
        Some((245u8, 255u8, 250u8))
    } else if is_str(name, "mistyrose") {
        Some((255u8, 228u8, 225u8))
    } else if is_str(name, "moccasin") {
        Some((255u8, 228u8, 181u8))
    } else if is_str(name, "navajowhite") {
        Some((255u8, 222u8, 173u8))
    } else if is_str(name, "navy") {
        Some((0u8, 0u8, 128u8))
    } else if is_str(name, "oldlace") {
        Some((253u8, 245u8, 230u8))
    } else if is_str(name, "olive") {
        Some((128u8, 128u8, 0u8))
    } else if is_str(name, "olivedrab") {
        Some((107u8, 142u8, 35u8))
    } else if is_str(name, "orange") {
        Some((255u8, 165u8, 0u8))
    } else if is_str(name, "orangered") {
        Some((255u8, 69u8, 0u8))
    } else if is_str(name, "orchid") {
        Some((218u8, 112u8, 214u8))
    } else if is_str(name, "palegoldenrod") {
        Some((238u8, 232u8, 170u8))
    } else if is_str(name, "palegreen") {
        Some((152u8, 251u8, 152u8))
    } else if is_str(name, "paleturquoise") {
        Some((175u8, 238u8, 238u8))
    } else if is_str(name, "palevioletred") {
        Some((219u8, 112u8, 147u8))
    } else if is_str(name, "papayawhip") {
        Some((255u8, 239u8, 213u8))
    } else if is_str(name, "peachpuff") {
        Some((255u8, 218u8, 185u8))
    } else if is_str(name, "peru") {
        Some((205u8, 133u8, 63u8))
    } else if is_str(name, "pink") {
        Some((255u8, 192u8, 203u8))
    } else if is_str(name, "plum") {
        Some((221u8, 160u8, 221u8))
    } else if is_str(name, "powderblue") {
        Some((176u8, 224u8, 230u8))
    } else if is_str(name, "purple") {
        Some((128u8, 0u8, 128u8))
    } else if is_str(name, "red") {
        Some((255u8, 0u8, 0u8))
    } else if is_str(name, "rosybrown") {
        Some((188u8, 143u8, 143u8))
    } else if is_str(name, "royalblue") {
        Some((65u8, 105u8, 225u8))
    } else if is_str(name, "saddlebrown") {
        Some((139u8, 69u8, 19u8))
    } else if is_str(name, "salmon") {
        Some((250u8, 128u8, 114u8))
    } else if is_str(name, "sandybrown") {
        Some((244u8, 164u8, 96u8))
    } else if is_str(name, "seagreen") {
        Some((46u8, 139u8, 87u8))
    } else if is_str(name, "seashell") {
        Some((255u8, 245u8, 238u8))
    } else if is_str(name, "sienna") {
        Some((160u8, 82u8, 45u8))
    } else if is_str(name, "silver") {
        Some((192u8, 192u8, 192u8))
    } else if is_str(name, "skyblue") {
        Some((135u8, 206u8, 235u8))
    } else if is_str(name, "slateblue") {
        Some((106u8, 90u8, 205u8))
    } else if is_str(name, "slategray") {
        Some((112u8, 128u8, 144u8))
    } else if is_str(name, "slategrey") {
        Some((112u8, 128u8, 144u8))
    } else if is_str(name, "snow") {
        Some((255u8, 250u8, 250u8))
    } else if is_str(name, "springgreen") {
        Some((0u8, 255u8, 127u8))
    } else if is_str(name, "steelblue") {
        Some((70u8, 130u8, 180u8))
    } else if is_str(name, "tan") {
        Some((210u8, 180u8, 140u8))
    } else if is_str(name, "teal") {
        Some((0u8, 128u8, 128u8))
    } else if is_str(name, "thistle") {
        Some((216u8, 191u8, 216u8))
    } else if is_str(name, "tomato") {
        Some((255u8, 99u8, 71u8))
    } else if is_str(name, "turquoise") {
        Some((64u8, 224u8, 208u8))
    } else if is_str(name, "violet") {
        Some((238u8, 130u8, 238u8))
    } else if is_str(name, "wheat") {
        Some((245u8, 222u8, 179u8))
    } else if is_str(name, "white") {
        Some((255u8, 255u8, 255u8))
    } else if is_str(name, "whitesmoke") {
        Some((245u8, 245u8, 245u8))
    } else if is_str(name, "yellow") {
        Some((255u8, 255u8, 0u8))
    } else if is_str(name, "yellowgreen") {
        Some((154u8, 205u8, 50u8))
    } else {
        None
    }
}

/// The CSS name of the color with the given channels.
pub fn rgb_to_name(r: u8, g: u8, b: u8) -> (name: Option<&'static str>)
    ensures
        name == name_of_color(r, g, b),
{
    if r == 240 && g == 248 && b == 255 {
        Some("aliceblue")
    } else if r == 250 && g == 235 && b == 215 {
        Some("antiquewhite")
    } else if r == 127 && g == 255 && b == 212 {
        Some("aquamarine")
    } else if r == 240 && g == 255 && b == 255 {
        Some("azure")
    } else if r == 245 && g == 245 && b == 220 {
        Some("beige")
    } else if r == 255 && g == 228 && b == 196 {
        Some("bisque")
    } else if r == 0 && g == 0 && b == 0 {
        Some("black")
    } else if r == 255 && g == 235 && b == 205 {
        Some("blanchedalmond")
    } else if r == 0 && g == 0 && b == 255 {
        Some("blue")
    } else if r == 138 && g == 43 && b == 226 {
        Some("blueviolet")
    } else if r == 165 && g == 42 && b == 42 {
        Some("brown")
    } else if r == 222 && g == 184 && b == 135 {
        Some("burlywood")
    } else if r == 95 && g == 158 && b == 160 {
        Some("cadetblue")
    } else if r == 127 && g == 255 && b == 0 {
        Some("chartreuse")
    } else if r == 210 && g == 105 && b == 30 {
        Some("chocolate")
    } else if r == 255 && g == 127 && b == 80 {
        Some("coral")
    } else if r == 100 && g == 149 && b == 237 {
        Some("cornflowerblue")
    } else if r == 255 && g == 248 && b == 220 {
        Some("cornsilk")
    } else if r == 220 && g == 20 && b == 60 {
        Some("crimson")
    } else if r == 0 && g == 255 && b == 255 {
        Some("cyan")
    } else if r == 0 && g == 0 && b == 139 {
        Some("darkblue")
    } else if r == 0 && g == 139 && b == 139 {
        Some("darkcyan")
    } else if r == 184 && g == 134 && b == 11 {
        Some("darkgoldenrod")
    } else if r == 169 && g == 169 && b == 169 {
        Some("darkgray")
    } else if r == 0 && g == 100 && b == 0 {
        Some("darkgreen")
    } else if r == 189 && g == 183 && b == 107 {
        Some("darkkhaki")
    } else if r == 139 && g == 0 && b == 139 {
        Some("darkmagenta")
    } else if r == 85 && g == 107 && b == 47 {
        Some("darkolivegreen")
    } else if r == 255 && g == 140 && b == 0 {
        Some("darkorange")
    } else if r == 153 && g == 50 && b == 204 {
        Some("darkorchid")
    } else if r == 139 && g == 0 && b == 0 {
        Some("darkred")
    } else if r == 233 && g == 150 && b == 122 {
        Some("darksalmon")
    } else if r == 143 && g == 188 && b == 143 {
        Some("darkseagreen")
    } else if r == 72 && g == 61 && b == 139 {
        Some("darkslateblue")
    } else if r == 47 && g == 79 && b == 79 {
        Some("darkslategray")
    } else if r == 0 && g == 206 && b == 209 {
        Some("darkturquoise")
    } else if r == 148 && g == 0 && b == 211 {
        Some("darkviolet")
    } else if r == 255 && g == 20 && b == 147 {
        Some("deeppink")
    } else if r == 0 && g == 191 && b == 255 {
        Some("deepskyblue")
    } else if r == 105 && g == 105 && b == 105 {
        Some("dimgray")
    } else if r == 30 && g == 144 && b == 255 {
        Some("dodgerblue")
    } else if r == 178 && g == 34 && b == 34 {
        Some("firebrick")
    } else if r == 255 && g == 250 && b == 240 {
        Some("floralwhite")
    } else if r == 34 && g == 139 && b == 34 {
        Some("forestgreen")
    } else if r == 220 && g == 220 && b == 220 {
        Some("gainsboro")
    } else if r == 248 && g == 248 && b == 255 {
        Some("ghostwhite")
    } else if r == 255 && g == 215 && b == 0 {
        Some("gold")
    } else if r == 218 && g == 165 && b == 32 {
        Some("goldenrod")
    } else if r == 128 && g == 128 && b == 128 {
        Some("gray")
    } else if r == 0 && g == 128 && b == 0 {
        Some("green")
    } else if r == 173 && g == 255 && b == 47 {
        Some("greenyellow")
    } else if r == 240 && g == 255 && b == 240 {
        Some("honeydew")
    } else if r == 255 && g == 105 && b == 180 {
        Some("hotpink")
    } else if r == 205 && g == 92 && b == 92 {
        Some("indianred")
    } else if r == 75 && g == 0 && b == 130 {
        Some("indigo")
    } else if r == 255 && g == 255 && b == 240 {
        Some("ivory")
    } else if r == 240 && g == 230 && b == 140 {
        Some("khaki")
    } else if r == 230 && g == 230 && b == 250 {
        Some("lavender")
    } else if r == 255 && g == 240 && b == 245 {
        Some("lavenderblush")
    } else if r == 124 && g == 252 && b == 0 {
        Some("lawngreen")
    } else if r == 255 && g == 250 && b == 205 {
        Some("lemonchiffon")
    } else if r == 173 && g == 216 && b == 230 {
        Some("lightblue")
    } else if r == 240 && g == 128 && b == 128 {
        Some("lightcoral")
    } else if r == 224 && g == 255 && b == 255 {
        Some("lightcyan")
    } else if r == 250 && g == 250 && b == 210 {
        Some("lightgoldenrodyellow")
    } else if r == 211 && g == 211 && b == 211 {
        Some("lightgray")
    } else if r == 144 && g == 238 && b == 144 {
        Some("lightgreen")
    } else if r == 255 && g == 182 && b == 193 {
        Some("lightpink")
    } else if r == 255 && g == 160 && b == 122 {
        Some("lightsalmon")
    } else if r == 32 && g == 178 && b == 170 {
        Some("lightseagreen")
    } else if r == 135 && g == 206 && b == 250 {
        Some("lightskyblue")
    } else if r == 119 && g == 136 && b == 153 {
        Some("lightslategray")
    } else if r == 176 && g == 196 && b == 222 {
        Some("lightsteelblue")
    } else if r == 255 && g == 255 && b == 224 {
        Some("lightyellow")
    } else if r == 0 && g == 255 && b == 0 {
        Some("lime")
    } else if r == 50 && g == 205 && b == 50 {
        Some("limegreen")
    } else if r == 250 && g == 240 && b == 230 {
        Some("linen")
    } else if r == 255 && g == 0 && b == 255 {
        Some("magenta")
    } else if r == 128 && g == 0 && b == 0 {
        Some("maroon")
    } else if r == 102 && g == 205 && b == 170 {
        Some("mediumaquamarine")
    } else if r == 0 && g == 0 && b == 205 {
        Some("mediumblue")
    } else if r == 186 && g == 85 && b == 211 {
        Some("mediumorchid")
    } else if r == 147 && g == 112 && b == 219 {
        Some("mediumpurple")
    } else if r == 60 && g == 179 && b == 113 {
        Some("mediumseagreen")
    } else if r == 123 && g == 104 && b == 238 {
        Some("mediumslateblue")
    } else if r == 0 && g == 250 && b == 154 {
        Some("mediumspringgreen")
    } else if r == 72 && g == 209 && b == 204 {
        Some("mediumturquoise")
    } else if r == 199 && g == 21 && b == 133 {
        Some("mediumvioletred")
    } else if r == 25 && g == 25 && b == 112 {
        Some("midnightblue")
    } else if r == 245 && g == 255 && b == 250 {
        Some("mintcream")
    } else if r == 255 && g == 228 && b == 225 {
        Some("mistyrose")
    } else if r == 255 && g == 228 && b == 181 {
        Some("moccasin")
    } else if r == 255 && g == 222 && b == 173 {
        Some("navajowhite")
    } else if r == 0 && g == 0 && b == 128 {
        Some("navy")
    } else if r == 253 && g == 245 && b == 230 {
        Some("oldlace")
    } else if r == 128 && g == 128 && b == 0 {
        Some("olive")
    } else if r == 107 && g == 142 && b == 35 {
        Some("olivedrab")
    } else if r == 255 && g == 165 && b == 0 {
        Some("orange")
    } else if r == 255 && g == 69 && b == 0 {
        Some("orangered")
    } else if r == 218 && g == 112 && b == 214 {
        Some("orchid")
    } else if r == 238 && g == 232 && b == 170 {
        Some("palegoldenrod")
    } else if r == 152 && g == 251 && b == 152 {
        Some("palegreen")
    } else if r == 175 && g == 238 && b == 238 {
        Some("paleturquoise")
    } else if r == 219 && g == 112 && b == 147 {
        Some("palevioletred")
    } else if r == 255 && g == 239 && b == 213 {
        Some("papayawhip")
    } else if r == 255 && g == 218 && b == 185 {
        Some("peachpuff")
    } else if r == 205 && g == 133 && b == 63 {
        Some("peru")
    } else if r == 255 && g == 192 && b == 203 {
        Some("pink")
    } else if r == 221 && g == 160 && b == 221 {
        Some("plum")
    } else if r == 176 && g == 224 && b == 230 {
        Some("powderblue")
    } else if r == 128 && g == 0 && b == 128 {
        Some("purple")
    } else if r == 255 && g == 0 && b == 0 {
        Some("red")
    } else if r == 188 && g == 143 && b == 143 {
        Some("rosybrown")
    } else if r == 65 && g == 105 && b == 225 {
        Some("royalblue")
    } else if r == 139 && g == 69 && b == 19 {
        Some("saddlebrown")
    } else if r == 250 && g == 128 && b == 114 {
        Some("salmon")
    } else if r == 244 && g == 164 && b == 96 {
        Some("sandybrown")
    } else if r == 46 && g == 139 && b == 87 {
        Some("seagreen")
    } else if r == 255 && g == 245 && b == 238 {
        Some("seashell")
    } else if r == 160 && g == 82 && b == 45 {
        Some("sienna")
    } else if r == 192 && g == 192 && b == 192 {
        Some("silver")
    } else if r == 135 && g == 206 && b == 235 {
        Some("skyblue")
    } else if r == 106 && g == 90 && b == 205 {
        Some("slateblue")
    } else if r == 112 && g == 128 && b == 144 {
        Some("slategray")
    } else if r == 255 && g == 250 && b == 250 {
        Some("snow")
    } else if r == 0 && g == 255 && b == 127 {
        Some("springgreen")
    } else if r == 70 && g == 130 && b == 180 {
        Some("steelblue")
    } else if r == 210 && g == 180 && b == 140 {
        Some("tan")
    } else if r == 0 && g == 128 && b == 128 {
        Some("teal")
    } else if r == 216 && g == 191 && b == 216 {
        Some("thistle")
    } else if r == 255 && g == 99 && b == 71 {
        Some("tomato")
    } else if r == 64 && g == 224 && b == 208 {
        Some("turquoise")
    } else if r == 238 && g == 130 && b == 238 {
        Some("violet")
    } else if r == 245 && g == 222 && b == 179 {
        Some("wheat")
    } else if r == 255 && g == 255 && b == 255 {
        Some("white")
    } else if r == 245 && g == 245 && b == 245 {
        Some("whitesmoke")
    } else if r == 255 && g == 255 && b == 0 {
        Some("yellow")
    } else if r == 154 && g == 205 && b == 50 {
        Some("yellowgreen")
    } else {
        None
    }
}

} // verus!
