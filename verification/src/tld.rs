//! The table of top-level domains that mark a bare token as a link.

use crate::text::{same_text, split_words, to_chars, from_chars, words};
use vstd::prelude::*;

verus! {

/// The recognised top-level domains, lower case, separated by white space:
/// the generic domains of old, the country codes, and the newer generic
/// domains in common use.
pub const TLD_LIST: &'static str = "com org net edu gov mil int arpa aero asia biz cat coop info jobs mobi museum name \
    post pro tel travel xxx ac ad ae af ag ai al am ao aq ar as at au aw ax az ba bb bd \
    be bf bg bh bi bj bm bn bo br bs bt bw by bz ca cc cd cf cg ch ci ck cl cm cn co cr \
    cu cv cw cx cy cz de dj dk dm do dz ec ee eg er es et eu fi fj fk fm fo fr ga gd ge \
    gf gg gh gi gl gm gn gp gq gr gs gt gu gw gy hk hm hn hr ht hu id ie il im in io iq \
    ir is it je jm jo jp ke kg kh ki km kn kp kr kw ky kz la lb lc li lk lr ls lt lu lv \
    ly ma mc md me mg mh mk ml mm mn mo mp mq mr ms mt mu mv mw mx my mz na nc ne nf ng \
    ni nl no np nr nu nz om pa pe pf pg ph pk pl pm pn pr ps pt pw py qa re ro rs ru rw \
    sa sb sc sd se sg sh si sk sl sm sn so sr ss st su sv sx sy sz tc td tf tg th tj tk \
    tl tm tn to tr tt tv tw tz ua ug uk us uy uz va vc ve vg vi vn vu wf ws ye yt za zm \
    zw academy accountant actor agency app art audio auction band bank bar beer best bet \
    bible bid bike bingo bio black blog blue boo book boutique box build builders \
    business buzz cab cafe cam camera camp capital car cards care careers cars casa cash \
    casino center ceo chat cheap church city claims cleaning click clinic clothing cloud \
    club coach codes coffee college community company computer condos construction \
    consulting contractors cooking cool country coupons courses credit cricket cruises \
    dance data date dating day deals degree delivery democrat dental design dev diamonds \
    diet digital direct directory discount doctor dog domains download earth eco \
    education email energy engineer engineering enterprises equipment estate events \
    exchange expert exposed express fail faith family fan fans farm fashion film finance \
    financial fish fishing fit fitness flights florist flowers football forsale \
    foundation fun fund furniture futbol fyi gallery game games garden gift gifts gives \
    glass global gmbh gold golf graphics gratis green gripe group guide guitars guru \
    hair haus health healthcare help hiphop hockey holdings holiday home homes horse \
    hospital host hosting house how icu immo industries ink institute insure \
    international investments irish jetzt jewelry juegos kaufen kim kitchen land lat law \
    lawyer lease legal lgbt life lighting limited limo link live loan loans lol london \
    love ltd luxury maison management market marketing markets mba media meet memorial \
    men menu miami moda moe money monster mortgage mov movie nagoya navy network new \
    news ninja nyc okinawa one onl online ooo page paris partners parts party pet \
    pharmacy photo photography photos physio pics pictures pink pizza place plumbing \
    plus poker porn press productions prof promo properties property pub qpon quebec \
    racing radio recipes red rehab rent rentals repair report republican rest restaurant \
    review reviews rip rocks rodeo run sale salon sarl school schule science security \
    services sex sexy shiksha shoes shop shopping show singles site ski soccer social \
    software solar solutions space sport store stream studio study style sucks supplies \
    supply support surf surgery systems tattoo tax taxi team tech technology tennis \
    theater tips tires today tokyo tools top tours town toys trade trading training tube \
    university uno vacations vegas ventures vet video villas vin vip vision vodka vote \
    voting voyage wales watch webcam website wedding wiki win wine work works world wtf \
    xyz yoga yokohama zip zone";

/// The recognised top-level domains.
pub open spec fn tld_table() -> Seq<Seq<char>> {
    words(TLD_LIST@)
}

/// Whether `label` is a recognised top-level domain.
pub fn is_tld(label: &str) -> (r: bool)
    ensures
        r == tld_table().contains(label@),
{
    let table = split_words(&to_chars(TLD_LIST));
    let mut i: usize = 0;
    while i < table.len()
        invariant
            i <= table.len(),
            crate::text::views(table@) == tld_table(),
            forall|j: int| 0 <= j < i ==> tld_table()[j] != label@,
        decreases table.len() - i,
    {
        let entry = from_chars(&table[i]);
        if same_text(entry.as_str(), label) {
            assert(tld_table()[i as int] == label@);
            return true;
        }
        i += 1;
    }
    false
}

} // verus!
