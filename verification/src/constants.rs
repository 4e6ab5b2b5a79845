//! Built-in data: named query presets and the table of known archive line
//! counts.
//!
//! The presets map a short name to a list of raw `field:value` entries, so
//! that a common multi-subreddit query need not be spelled out on every run.
//! The line-count table records the exact number of lines of each known
//! monthly archive; the progress estimator consults it by file name before
//! falling back to a size-based estimate.

use vstd::prelude::*;
use crate::progress::LineCountEntry;

verus! {

/// The decompressor's history-window limit, as a power of two: the largest
/// the compression format allows. Archives produced with large dictionaries
/// fail to decode under a smaller window, so this is a correctness
/// requirement of the reader, not a tuning knob.
pub const MAX_WINDOW_LOG: u32 = 31;

// ---------------------------------------------------------------------------
// Presets
// ---------------------------------------------------------------------------

/// The mathematical content of one preset: its name and its raw entries.
#[verifier::ext_equal]
pub ghost struct PresetModel {
    pub name: Seq<char>,
    pub fields: Seq<Seq<char>>,
}

/// One named preset: a reusable list of raw query entries.
pub struct Preset {
    /// the name given on the command line
    pub name: String,
    /// the raw `field:value` entries the name stands for
    pub fields: Vec<String>,
}

impl Preset {
    pub open spec fn model(&self) -> PresetModel {
        PresetModel { name: self.name@, fields: self.fields@.map_values(|s: String| s@) }
    }
}

/// The mathematical content of a preset list.
pub open spec fn presets_model(ps: Seq<Preset>) -> Seq<PresetModel> {
    ps.map_values(|p: Preset| p.model())
}

/// The built-in presets.
pub open spec fn spec_presets() -> Seq<PresetModel> {
    seq![
        PresetModel {
            name: "en_news"@,
            fields: seq!["subreddit:news"@, "subreddit:worldnews"@],
        },
        PresetModel {
            name: "en_politics"@,
            fields: seq![
                "subreddit:politics"@,
                "subreddit:PoliticalDiscussion"@,
                "subreddit:geopolitics"@,
                "subreddit:NeutralPolitics"@,
                "subreddit:Ask_Politics"@,
                "subreddit:PoliticalHumor"@,
                "subreddit:PoliticalCompassMemes"@,
                "subreddit:PoliticalMemes"@,
                "subreddit:PoliticalDiscussion"@,
                "subreddit:ShitPoliticsSay"@,
            ],
        },
        PresetModel {
            name: "en_science"@,
            fields: seq![
                "subreddit:science"@,
                "subreddit:EverythingScience"@,
                "subreddit:AskScience"@,
                "subreddit:EverythingScience"@,
            ],
        },
        PresetModel {
            name: "en_hate_speech"@,
            fields: seq![
                "subreddit:Physical_Removal"@,
                "subreddit:MillionDollarExtreme"@,
                "subreddit:GasTheKikes"@,
                "subreddit:FatPeopleHate"@,
                "subreddit:Beatingwomen"@,
                "subreddit:niggers"@,
                "subreddit:UncensoredNews"@,
            ],
        },
        PresetModel { name: "controversial"@, fields: seq!["controversiality:1"@] },
    ]
}

/// Builds the built-in preset list.
pub fn get_presets() -> (r: Vec<Preset>)
    ensures
        presets_model(r@) == spec_presets(),
{
    let mut ps: Vec<Preset> = Vec::new();

    let mut fields: Vec<String> = Vec::new();
    fields.push("subreddit:news".to_owned());
    fields.push("subreddit:worldnews".to_owned());
    ps.push(Preset { name: "en_news".to_owned(), fields });

    let mut fields: Vec<String> = Vec::new();
    fields.push("subreddit:politics".to_owned());
    fields.push("subreddit:PoliticalDiscussion".to_owned());
    fields.push("subreddit:geopolitics".to_owned());
    fields.push("subreddit:NeutralPolitics".to_owned());
    fields.push("subreddit:Ask_Politics".to_owned());
    fields.push("subreddit:PoliticalHumor".to_owned());
    fields.push("subreddit:PoliticalCompassMemes".to_owned());
    fields.push("subreddit:PoliticalMemes".to_owned());
    fields.push("subreddit:PoliticalDiscussion".to_owned());
    fields.push("subreddit:ShitPoliticsSay".to_owned());
    ps.push(Preset { name: "en_politics".to_owned(), fields });

    let mut fields: Vec<String> = Vec::new();
    fields.push("subreddit:science".to_owned());
    fields.push("subreddit:EverythingScience".to_owned());
    fields.push("subreddit:AskScience".to_owned());
    fields.push("subreddit:EverythingScience".to_owned());
    ps.push(Preset { name: "en_science".to_owned(), fields });

    let mut fields: Vec<String> = Vec::new();
    fields.push("subreddit:Physical_Removal".to_owned());
    fields.push("subreddit:MillionDollarExtreme".to_owned());
    fields.push("subreddit:GasTheKikes".to_owned());
    fields.push("subreddit:FatPeopleHate".to_owned());
    fields.push("subreddit:Beatingwomen".to_owned());
    fields.push("subreddit:niggers".to_owned());
    fields.push("subreddit:UncensoredNews".to_owned());
    ps.push(Preset { name: "en_hate_speech".to_owned(), fields });

    let mut fields: Vec<String> = Vec::new();
    fields.push("controversiality:1".to_owned());
    ps.push(Preset { name: "controversial".to_owned(), fields });

    proof {
        assert(presets_model(ps@) =~~= spec_presets());
    }
    ps
}

// ---------------------------------------------------------------------------
// Archive line counts
// ---------------------------------------------------------------------------

/// The year of the archive at a position in the table: the first archive is
/// the last month of the first year, after which full years follow.
pub open spec fn archive_year(i: int) -> int {
    if i == 0 {
        2005
    } else {
        2006 + (i - 1) / 12
    }
}

/// The month of the archive at a position in the table.
pub open spec fn archive_month(i: int) -> int {
    if i == 0 {
        12
    } else {
        1 + (i - 1) % 12
    }
}

pub open spec fn digit_byte(d: int) -> u8 {
    (48 + d) as u8
}

/// The file name of a monthly archive: `RC_` plus the zero-padded year and
/// month plus the compression suffix.
pub open spec fn archive_name(year: int, month: int) -> Seq<u8> {
    seq![
        'R' as u8,
        'C' as u8,
        '_' as u8,
        digit_byte(year / 1000),
        digit_byte(year / 100 % 10),
        digit_byte(year / 10 % 10),
        digit_byte(year % 10),
        '-' as u8,
        digit_byte(month / 10),
        digit_byte(month % 10),
        '.' as u8,
        'z' as u8,
        's' as u8,
        't' as u8,
    ]
}

/// Renders one archive file name.
fn archive_name_bytes(year: u64, month: u64) -> (r: Vec<u8>)
    requires
        1000 <= year <= 9999,
        1 <= month <= 12,
    ensures
        r@ == archive_name(year as int, month as int),
{
    let mut v: Vec<u8> = Vec::new();
    v.push('R' as u8);
    v.push('C' as u8);
    v.push('_' as u8);
    v.push((48 + year / 1000) as u8);
    v.push((48 + year / 100 % 10) as u8);
    v.push((48 + year / 10 % 10) as u8);
    v.push((48 + year % 10) as u8);
    v.push('-' as u8);
    v.push((48 + month / 10) as u8);
    v.push((48 + month % 10) as u8);
    v.push('.' as u8);
    v.push('z' as u8);
    v.push('s' as u8);
    v.push('t' as u8);
    proof {
        assert(v@ =~= archive_name(year as int, month as int));
    }
    v
}

/// The counts recorded for the archives of one year, oldest first.
pub open spec fn counts_2005() -> Seq<u64> {
    seq![1075]
}

/// The counts recorded for the archives of one year, oldest first.
pub open spec fn counts_2006() -> Seq<u64> {
    seq![3666, 9095, 13859, 19090, 26859, 29163, 37031, 50559, 50675, 54148, 62021, 61018]
}

/// The counts recorded for the archives of one year, oldest first.
pub open spec fn counts_2007() -> Seq<u64> {
    seq![81341, 95634, 112444, 126773, 170097, 178800, 203319, 225111, 259497, 274170, 372983, 363390]
}

/// The counts recorded for the archives of one year, oldest first.
pub open spec fn counts_2008() -> Seq<u64> {
    seq![452990, 441768, 463728, 468317, 536380, 577684, 592610, 595959, 680892, 789874, 792310, 850359]
}

/// The counts recorded for the archives of one year, oldest first.
pub open spec fn counts_2009() -> Seq<u64> {
    seq![1051649, 944711, 1048643, 1094599, 1201257, 1258750, 1470290, 1750688, 2032276, 2242017, 2207444, 2560510]
}

/// The counts recorded for the archives of one year, oldest first.
pub open spec fn counts_2010() -> Seq<u64> {
    seq![2884096, 2687779, 3228254, 3209898, 3267363, 3532867, 4032737, 4247982, 4704069, 5032368, 5689002, 5972642]
}

/// The counts recorded for the archives of one year, oldest first.
pub open spec fn counts_2011() -> Seq<u64> {
    seq![6603329, 6363114, 7556165, 7571398, 8803949, 9766511, 10557466, 12316144, 12150412, 13470278, 13621533, 14509469]
}

/// The counts recorded for the archives of one year, oldest first.
pub open spec fn counts_2012() -> Seq<u64> {
    seq![16350205, 16015695, 17881943, 19044534, 20388260, 21897913, 24087517, 25703326, 23419524, 24788236, 24648302, 26080276]
}

/// The counts recorded for the archives of one year, oldest first.
pub open spec fn counts_2013() -> Seq<u64> {
    seq![30365867, 27213960, 30771274, 33259557, 33126225, 32648247, 34922133, 34766579, 31990369, 35940040, 37396497, 39810216]
}

/// The counts recorded for the archives of one year, oldest first.
pub open spec fn counts_2014() -> Seq<u64> {
    seq![42420655, 38703362, 42459956, 42440735, 42514094, 41990650, 46868899, 46990813, 44992201, 47497520, 46118074, 48807699]
}

/// The counts recorded for the archives of one year, oldest first.
pub open spec fn counts_2015() -> Seq<u64> {
    seq![53851542, 48342747, 54564441, 55005780, 54504410, 54258492, 58451788, 58075327, 55574825, 59494045, 57117500, 58523312]
}

/// The counts recorded for the archives of one year, oldest first.
pub open spec fn counts_2016() -> Seq<u64> {
    seq![61991732, 59189875, 63918864, 64271256, 65212004, 65867743, 66974735, 69654819, 67024973, 71826553, 71022319, 72942967]
}

/// The counts recorded for the archives of one year, oldest first.
pub open spec fn counts_2017() -> Seq<u64> {
    seq![78946585, 70609487, 79723106, 77478009, 79810360, 79901711, 81798725, 84658503, 83165192, 85828912, 84965681, 85973810]
}

/// The counts recorded for the archives of one year, oldest first.
pub open spec fn counts_2018() -> Seq<u64> {
    seq![91558594, 86467179, 96490262, 98101232, 100109100, 100009462, 108151359, 107330940, 104473929, 112346556, 112573001, 121953600]
}

/// The counts recorded for the archives of one year, oldest first.
pub open spec fn counts_2019() -> Seq<u64> {
    seq![129386587, 120645639, 137650471, 138473643, 142463421, 134172939, 145965083, 146854393, 137540219, 145909884, 138512489, 146012313]
}

/// The counts recorded for the archives of one year, oldest first.
pub open spec fn counts_2020() -> Seq<u64> {
    seq![153498208, 148386817, 166266315, 178511581, 189993779, 187914434, 194244994, 196099301, 182549761, 186583890, 186083723, 191317162]
}

/// The counts recorded for the archives of one year, oldest first.
pub open spec fn counts_2021() -> Seq<u64> {
    seq![210496207, 193510365, 207454415, 204573086, 217655366, 208027069, 210955954, 225681244, 220086513, 227527379, 228289963, 235807471]
}

/// The counts recorded for the archives of one year, oldest first.
pub open spec fn counts_2022() -> Seq<u64> {
    seq![256766679, 219927645, 236554668, 231188077, 230492108, 218842949, 242504279, 247215325, 234131223, 237365072, 229478878, 238862690]
}

/// The recorded line counts, one per monthly archive, oldest first.
pub open spec fn recorded_counts() -> Seq<u64> {
    counts_2005() + counts_2006() + counts_2007() + counts_2008() + counts_2009()
        + counts_2010() + counts_2011() + counts_2012() + counts_2013() + counts_2014()
        + counts_2015() + counts_2016() + counts_2017() + counts_2018() + counts_2019()
        + counts_2020() + counts_2021() + counts_2022()
}

fn counts_2005_vec() -> (r: Vec<u64>)
    ensures
        r@ == counts_2005(),
{
    let mut v: Vec<u64> = Vec::new();
    v.push(1075);
    proof {
        assert(v@ =~= counts_2005());
    }
    v
}

fn counts_2006_vec() -> (r: Vec<u64>)
    ensures
        r@ == counts_2006(),
{
    let mut v: Vec<u64> = Vec::new();
    v.push(3666);
    v.push(9095);
    v.push(13859);
    v.push(19090);
    v.push(26859);
    v.push(29163);
    v.push(37031);
    v.push(50559);
    v.push(50675);
    v.push(54148);
    v.push(62021);
    v.push(61018);
    proof {
        assert(v@ =~= counts_2006());
    }
    v
}

fn counts_2007_vec() -> (r: Vec<u64>)
    ensures
        r@ == counts_2007(),
{
    let mut v: Vec<u64> = Vec::new();
    v.push(81341);
    v.push(95634);
    v.push(112444);
    v.push(126773);
    v.push(170097);
    v.push(178800);
    v.push(203319);
    v.push(225111);
    v.push(259497);
    v.push(274170);
    v.push(372983);
    v.push(363390);
    proof {
        assert(v@ =~= counts_2007());
    }
    v
}

fn counts_2008_vec() -> (r: Vec<u64>)
    ensures
        r@ == counts_2008(),
{
    let mut v: Vec<u64> = Vec::new();
    v.push(452990);
    v.push(441768);
    v.push(463728);
    v.push(468317);
    v.push(536380);
    v.push(577684);
    v.push(592610);
    v.push(595959);
    v.push(680892);
    v.push(789874);
    v.push(792310);
    v.push(850359);
    proof {
        assert(v@ =~= counts_2008());
    }
    v
}

fn counts_2009_vec() -> (r: Vec<u64>)
    ensures
        r@ == counts_2009(),
{
    let mut v: Vec<u64> = Vec::new();
    v.push(1051649);
    v.push(944711);
    v.push(1048643);
    v.push(1094599);
    v.push(1201257);
    v.push(1258750);
    v.push(1470290);
    v.push(1750688);
    v.push(2032276);
    v.push(2242017);
    v.push(2207444);
    v.push(2560510);
    proof {
        assert(v@ =~= counts_2009());
    }
    v
}

fn counts_2010_vec() -> (r: Vec<u64>)
    ensures
        r@ == counts_2010(),
{
    let mut v: Vec<u64> = Vec::new();
    v.push(2884096);
    v.push(2687779);
    v.push(3228254);
    v.push(3209898);
    v.push(3267363);
    v.push(3532867);
    v.push(4032737);
    v.push(4247982);
    v.push(4704069);
    v.push(5032368);
    v.push(5689002);
    v.push(5972642);
    proof {
        assert(v@ =~= counts_2010());
    }
    v
}

fn counts_2011_vec() -> (r: Vec<u64>)
    ensures
        r@ == counts_2011(),
{
    let mut v: Vec<u64> = Vec::new();
    v.push(6603329);
    v.push(6363114);
    v.push(7556165);
    v.push(7571398);
    v.push(8803949);
    v.push(9766511);
    v.push(10557466);
    v.push(12316144);
    v.push(12150412);
    v.push(13470278);
    v.push(13621533);
    v.push(14509469);
    proof {
        assert(v@ =~= counts_2011());
    }
    v
}

fn counts_2012_vec() -> (r: Vec<u64>)
    ensures
        r@ == counts_2012(),
{
    let mut v: Vec<u64> = Vec::new();
    v.push(16350205);
    v.push(16015695);
    v.push(17881943);
    v.push(19044534);
    v.push(20388260);
    v.push(21897913);
    v.push(24087517);
    v.push(25703326);
    v.push(23419524);
    v.push(24788236);
    v.push(24648302);
    v.push(26080276);
    proof {
        assert(v@ =~= counts_2012());
    }
    v
}

fn counts_2013_vec() -> (r: Vec<u64>)
    ensures
        r@ == counts_2013(),
{
    let mut v: Vec<u64> = Vec::new();
    v.push(30365867);
    v.push(27213960);
    v.push(30771274);
    v.push(33259557);
    v.push(33126225);
    v.push(32648247);
    v.push(34922133);
    v.push(34766579);
    v.push(31990369);
    v.push(35940040);
    v.push(37396497);
    v.push(39810216);
    proof {
        assert(v@ =~= counts_2013());
    }
    v
}

fn counts_2014_vec() -> (r: Vec<u64>)
    ensures
        r@ == counts_2014(),
{
    let mut v: Vec<u64> = Vec::new();
    v.push(42420655);
    v.push(38703362);
    v.push(42459956);
    v.push(42440735);
    v.push(42514094);
    v.push(41990650);
    v.push(46868899);
    v.push(46990813);
    v.push(44992201);
    v.push(47497520);
    v.push(46118074);
    v.push(48807699);
    proof {
        assert(v@ =~= counts_2014());
    }
    v
}

fn counts_2015_vec() -> (r: Vec<u64>)
    ensures
        r@ == counts_2015(),
{
    let mut v: Vec<u64> = Vec::new();
    v.push(53851542);
    v.push(48342747);
    v.push(54564441);
    v.push(55005780);
    v.push(54504410);
    v.push(54258492);
    v.push(58451788);
    v.push(58075327);
    v.push(55574825);
    v.push(59494045);
    v.push(57117500);
    v.push(58523312);
    proof {
        assert(v@ =~= counts_2015());
    }
    v
}

fn counts_2016_vec() -> (r: Vec<u64>)
    ensures
        r@ == counts_2016(),
{
    let mut v: Vec<u64> = Vec::new();
    v.push(61991732);
    v.push(59189875);
    v.push(63918864);
    v.push(64271256);
    v.push(65212004);
    v.push(65867743);
    v.push(66974735);
    v.push(69654819);
    v.push(67024973);
    v.push(71826553);
    v.push(71022319);
    v.push(72942967);
    proof {
        assert(v@ =~= counts_2016());
    }
    v
}

fn counts_2017_vec() -> (r: Vec<u64>)
    ensures
        r@ == counts_2017(),
{
    let mut v: Vec<u64> = Vec::new();
    v.push(78946585);
    v.push(70609487);
    v.push(79723106);
    v.push(77478009);
    v.push(79810360);
    v.push(79901711);
    v.push(81798725);
    v.push(84658503);
    v.push(83165192);
    v.push(85828912);
    v.push(84965681);
    v.push(85973810);
    proof {
        assert(v@ =~= counts_2017());
    }
    v
}

fn counts_2018_vec() -> (r: Vec<u64>)
    ensures
        r@ == counts_2018(),
{
    let mut v: Vec<u64> = Vec::new();
    v.push(91558594);
    v.push(86467179);
    v.push(96490262);
    v.push(98101232);
    v.push(100109100);
    v.push(100009462);
    v.push(108151359);
    v.push(107330940);
    v.push(104473929);
    v.push(112346556);
    v.push(112573001);
    v.push(121953600);
    proof {
        assert(v@ =~= counts_2018());
    }
    v
}

fn counts_2019_vec() -> (r: Vec<u64>)
    ensures
        r@ == counts_2019(),
{
    let mut v: Vec<u64> = Vec::new();
    v.push(129386587);
    v.push(120645639);
    v.push(137650471);
    v.push(138473643);
    v.push(142463421);
    v.push(134172939);
    v.push(145965083);
    v.push(146854393);
    v.push(137540219);
    v.push(145909884);
    v.push(138512489);
    v.push(146012313);
    proof {
        assert(v@ =~= counts_2019());
    }
    v
}

fn counts_2020_vec() -> (r: Vec<u64>)
    ensures
        r@ == counts_2020(),
{
    let mut v: Vec<u64> = Vec::new();
    v.push(153498208);
    v.push(148386817);
    v.push(166266315);
    v.push(178511581);
    v.push(189993779);
    v.push(187914434);
    v.push(194244994);
    v.push(196099301);
    v.push(182549761);
    v.push(186583890);
    v.push(186083723);
    v.push(191317162);
    proof {
        assert(v@ =~= counts_2020());
    }
    v
}

fn counts_2021_vec() -> (r: Vec<u64>)
    ensures
        r@ == counts_2021(),
{
    let mut v: Vec<u64> = Vec::new();
    v.push(210496207);
    v.push(193510365);
    v.push(207454415);
    v.push(204573086);
    v.push(217655366);
    v.push(208027069);
    v.push(210955954);
    v.push(225681244);
    v.push(220086513);
    v.push(227527379);
    v.push(228289963);
    v.push(235807471);
    proof {
        assert(v@ =~= counts_2021());
    }
    v
}

fn counts_2022_vec() -> (r: Vec<u64>)
    ensures
        r@ == counts_2022(),
{
    let mut v: Vec<u64> = Vec::new();
    v.push(256766679);
    v.push(219927645);
    v.push(236554668);
    v.push(231188077);
    v.push(230492108);
    v.push(218842949);
    v.push(242504279);
    v.push(247215325);
    v.push(234131223);
    v.push(237365072);
    v.push(229478878);
    v.push(238862690);
    proof {
        assert(v@ =~= counts_2022());
    }
    v
}

/// The recorded line counts as a vector, oldest archive first.
fn recorded_counts_vec() -> (r: Vec<u64>)
    ensures
        r@ == recorded_counts(),
{
    let mut v: Vec<u64> = counts_2005_vec();
    let mut p = counts_2006_vec();
    v.append(&mut p);
    let mut p = counts_2007_vec();
    v.append(&mut p);
    let mut p = counts_2008_vec();
    v.append(&mut p);
    let mut p = counts_2009_vec();
    v.append(&mut p);
    let mut p = counts_2010_vec();
    v.append(&mut p);
    let mut p = counts_2011_vec();
    v.append(&mut p);
    let mut p = counts_2012_vec();
    v.append(&mut p);
    let mut p = counts_2013_vec();
    v.append(&mut p);
    let mut p = counts_2014_vec();
    v.append(&mut p);
    let mut p = counts_2015_vec();
    v.append(&mut p);
    let mut p = counts_2016_vec();
    v.append(&mut p);
    let mut p = counts_2017_vec();
    v.append(&mut p);
    let mut p = counts_2018_vec();
    v.append(&mut p);
    let mut p = counts_2019_vec();
    v.append(&mut p);
    let mut p = counts_2020_vec();
    v.append(&mut p);
    let mut p = counts_2021_vec();
    v.append(&mut p);
    let mut p = counts_2022_vec();
    v.append(&mut p);
    v
}

/// Builds the table of known archives: one entry per month, oldest first,
/// each with its file name and its recorded line count.
pub fn create_line_count_map() -> (r: Vec<LineCountEntry>)
    ensures
        r@.len() == recorded_counts().len(),
        forall|i: int|
            0 <= i < r@.len() ==> (#[trigger] r@[i]).name@ == archive_name(
                archive_year(i),
                archive_month(i),
            ) && r@[i].lines == recorded_counts()[i],
{
    let counts = recorded_counts_vec();
    let n = counts.len();
    let mut table: Vec<LineCountEntry> = Vec::new();
    let mut i: usize = 0;
    while i < n
        invariant
            n == recorded_counts().len(),
            counts@ == recorded_counts(),
            i <= n,
            table@.len() == i,
            forall|k: int|
                0 <= k < i ==> (#[trigger] table@[k]).name@ == archive_name(
                    archive_year(k),
                    archive_month(k),
                ) && table@[k].lines == recorded_counts()[k],
        decreases n - i,
    {
        let year: u64 = if i == 0 {
            2005
        } else {
            2006 + ((i - 1) / 12) as u64
        };
        let month: u64 = if i == 0 {
            12
        } else {
            1 + ((i - 1) % 12) as u64
        };
        let name = archive_name_bytes(year, month);
        table.push(LineCountEntry { name, lines: counts[i] });
        i = i + 1;
    }
    table
}

} // verus!
