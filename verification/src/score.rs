//! The scoring rule: how many obstacles a cascade or an ability use sends,
//! and how many gauge points a cascade takes from the opponent.
use vstd::prelude::*;
use crate::action::ActionResult;

verus! {

/// `b` to the power `n`.
pub open spec fn pow(b: int, n: nat) -> int
    decreases n,
{
    if n == 0 {
        1
    } else {
        b * pow(b, (n - 1) as nat)
    }
}

/// The score of round `i` of a cascade: 1.3 to the power `i`, rounded down.
pub open spec fn chain_step(i: nat) -> int {
    pow(13, i) / pow(10, i)
}

/// The score of a cascade of `n` rounds: the sum of the scores of its rounds.
pub open spec fn chain_score(n: nat) -> int
    decreases n,
{
    if n == 0 {
        0
    } else {
        chain_score((n - 1) as nat) + chain_step(n)
    }
}

/// The twelfth power of `s`.
pub open spec fn pow12(s: int) -> int {
    let c = s * s * s;
    let d = c * c;
    d * d
}

/// Whether `s` is 25 times 2 to the power `n / 12`, rounded down: the
/// greatest `s` whose twelfth power is at most 25 to the twelfth times 2 to
/// the power `n`.
pub open spec fn is_bomb_score(n: nat, s: int) -> bool {
    0 <= s && pow12(s) <= pow(25, 12) * pow(2, n) < pow12(s + 1)
}

/// The score of an ability use that removes `n` blocks.
pub open spec fn bomb_score(n: nat) -> int {
    choose|s: int| is_bomb_score(n, s)
}

/// `v`, held within the range of `i32`.
pub open spec fn clamp_i32(v: int) -> int {
    if v > i32::MAX {
        i32::MAX as int
    } else if v < i32::MIN {
        i32::MIN as int
    } else {
        v
    }
}

/// The obstacles that a cascade of `n` rounds sends: half its score.
pub open spec fn chain_obstacles(n: nat) -> int {
    clamp_i32(chain_score(n) / 2)
}

/// The obstacles that an ability use sends which removes `b` blocks and
/// sets off a cascade of `n` rounds: half of the two scores together.
pub open spec fn bomb_obstacles(b: nat, n: nat) -> int {
    clamp_i32((bomb_score(b) + chain_score(n)) / 2)
}

/// The gauge points that a cascade of `n` rounds takes from the opponent:
/// none below three rounds.
pub open spec fn gauge_cut(n: nat) -> int {
    if n >= 3 {
        12 + 2 * (n as int)
    } else {
        0
    }
}

/// The result of a placement whose cascade had `chains` rounds and the
/// first-round spread `height`.
pub open spec fn chain_result(chains: nat, height: int) -> ActionResult {
    ActionResult {
        chains: chains as u8,
        obstacle: chain_obstacles(chains) as i32,
        skill_guage: gauge_cut(chains) as i32,
        fire_height: height as i8,
    }
}

/// The result of an ability use that removed `bombed` blocks and set off a
/// cascade of `chains` rounds with the first-round spread `height`.
pub open spec fn bomb_result(bombed: nat, chains: nat, height: int) -> ActionResult {
    ActionResult {
        chains: chains as u8,
        obstacle: bomb_obstacles(bombed, chains) as i32,
        skill_guage: gauge_cut(chains) as i32,
        fire_height: height as i8,
    }
}

/// The score above which every cascade sends the most obstacles that a
/// result can hold.
pub const SCORE_CAP: i64 = 4294967296;

/// The scores of the cascades of 0 to 78 rounds. A longer cascade scores
/// more than `SCORE_CAP`.
pub const CHAIN_SCORES: [i64; 79] = [
    0,
    1,
    2,
    4,
    6,
    9,
    13,
    19,
    27,
    37,
    50,
    67,
    90,
    120,
    159,
    210,
    276,
    362,
    474,
    620,
    810,
    1057,
    1378,
    1795,
    2337,
    3042,
    3959,
    5151,
    6701,
    8716,
    11335,
    14740,
    19167,
    24923,
    32405,
    42132,
    54778,
    71218,
    92590,
    120373,
    156491,
    203445,
    264485,
    343838,
    446997,
    581103,
    755441,
    982081,
    1276713,
    1659735,
    2157664,
    2804971,
    3646471,
    4740421,
    6162556,
    8011332,
    10414741,
    13539173,
    17600934,
    22881224,
    29745601,
    38669291,
    50270088,
    65351124,
    84956471,
    110443422,
    143576459,
    186649407,
    242644240,
    315437523,
    410068791,
    533089439,
    693016282,
    900921178,
    1171197543,
    1522556818,
    1979323876,
    2573121051,
    3345057379,
];

/// The scores of the ability uses that remove 0 to 255 blocks.
pub const BOMB_SCORES: [i32; 256] = [
    25,
    26,
    28,
    29,
    31,
    33,
    35,
    37,
    39,
    42,
    44,
    47,
    50,
    52,
    56,
    59,
    62,
    66,
    70,
    74,
    79,
    84,
    89,
    94,
    100,
    105,
    112,
    118,
    125,
    133,
    141,
    149,
    158,
    168,
    178,
    188,
    200,
    211,
    224,
    237,
    251,
    266,
    282,
    299,
    317,
    336,
    356,
    377,
    400,
    423,
    448,
    475,
    503,
    533,
    565,
    599,
    634,
    672,
    712,
    755,
    800,
    847,
    897,
    951,
    1007,
    1067,
    1131,
    1198,
    1269,
    1345,
    1425,
    1510,
    1600,
    1695,
    1795,
    1902,
    2015,
    2135,
    2262,
    2397,
    2539,
    2690,
    2850,
    3020,
    3200,
    3390,
    3591,
    3805,
    4031,
    4271,
    4525,
    4794,
    5079,
    5381,
    5701,
    6040,
    6400,
    6780,
    7183,
    7610,
    8063,
    8542,
    9050,
    9589,
    10159,
    10763,
    11403,
    12081,
    12800,
    13561,
    14367,
    15221,
    16126,
    17085,
    18101,
    19178,
    20318,
    21526,
    22807,
    24163,
    25600,
    27122,
    28735,
    30443,
    32253,
    34171,
    36203,
    38356,
    40637,
    43053,
    45614,
    48326,
    51200,
    54244,
    57470,
    60887,
    64507,
    68343,
    72407,
    76713,
    81274,
    86107,
    91228,
    96652,
    102400,
    108489,
    114940,
    121774,
    129015,
    136687,
    144815,
    153426,
    162549,
    172215,
    182456,
    193305,
    204800,
    216978,
    229880,
    243549,
    258031,
    273375,
    289630,
    306853,
    325099,
    344431,
    364912,
    386610,
    409600,
    433956,
    459760,
    487099,
    516063,
    546750,
    579261,
    613706,
    650199,
    688862,
    729824,
    773221,
    819200,
    867912,
    919520,
    974198,
    1032127,
    1093500,
    1158523,
    1227413,
    1300398,
    1377724,
    1459648,
    1546443,
    1638400,
    1735824,
    1839041,
    1948396,
    2064254,
    2187001,
    2317047,
    2454826,
    2600797,
    2755449,
    2919296,
    3092887,
    3276800,
    3471648,
    3678083,
    3896793,
    4128509,
    4374003,
    4634095,
    4909652,
    5201595,
    5510898,
    5838593,
    6185774,
    6553600,
    6943297,
    7356167,
    7793587,
    8257018,
    8748006,
    9268190,
    9819305,
    10403191,
    11021797,
    11677187,
    12371549,
    13107200,
    13886594,
    14712334,
    15587175,
    16514037,
    17496012,
    18536380,
    19638610,
    20806383,
    22043594,
    23354375,
    24743098,
    26214400,
    27773189,
    29424669,
    31174350,
    33028074,
    34992025,
    37072760,
    39277221,
    41612766,
    44087189,
    46708750,
    49486197,
    52428800,
    55546378,
    58849338,
    62348701,
];

proof fn lemma_chain_scores_0()
    ensures
        pow(13, 16) == 665416609183179841int,
        pow(10, 16) == 10000000000000000int,
        chain_score(0) == CHAIN_SCORES[0],
        chain_score(1) == CHAIN_SCORES[1],
        chain_score(2) == CHAIN_SCORES[2],
        chain_score(3) == CHAIN_SCORES[3],
        chain_score(4) == CHAIN_SCORES[4],
        chain_score(5) == CHAIN_SCORES[5],
        chain_score(6) == CHAIN_SCORES[6],
        chain_score(7) == CHAIN_SCORES[7],
        chain_score(8) == CHAIN_SCORES[8],
        chain_score(9) == CHAIN_SCORES[9],
        chain_score(10) == CHAIN_SCORES[10],
        chain_score(11) == CHAIN_SCORES[11],
        chain_score(12) == CHAIN_SCORES[12],
        chain_score(13) == CHAIN_SCORES[13],
        chain_score(14) == CHAIN_SCORES[14],
        chain_score(15) == CHAIN_SCORES[15],
        chain_score(16) == CHAIN_SCORES[16],
{
    assert(pow(13, 0) == 1 && pow(10, 0) == 1 && chain_score(0) == 0);
    assert(pow(13, 1) == 13int);
    assert(pow(10, 1) == 10int);
    assert(chain_step(1) == 1int);
    assert(chain_score(1) == 1int);
    assert(pow(13, 2) == 169int);
    assert(pow(10, 2) == 100int);
    assert(chain_step(2) == 1int);
    assert(chain_score(2) == 2int);
    assert(pow(13, 3) == 2197int);
    assert(pow(10, 3) == 1000int);
    assert(chain_step(3) == 2int);
    assert(chain_score(3) == 4int);
    assert(pow(13, 4) == 28561int);
    assert(pow(10, 4) == 10000int);
    assert(chain_step(4) == 2int);
    assert(chain_score(4) == 6int);
    assert(pow(13, 5) == 371293int);
    assert(pow(10, 5) == 100000int);
    assert(chain_step(5) == 3int);
    assert(chain_score(5) == 9int);
    assert(pow(13, 6) == 4826809int);
    assert(pow(10, 6) == 1000000int);
    assert(chain_step(6) == 4int);
    assert(chain_score(6) == 13int);
    assert(pow(13, 7) == 62748517int);
    assert(pow(10, 7) == 10000000int);
    assert(chain_step(7) == 6int);
    assert(chain_score(7) == 19int);
    assert(pow(13, 8) == 815730721int);
    assert(pow(10, 8) == 100000000int);
    assert(chain_step(8) == 8int);
    assert(chain_score(8) == 27int);
    assert(pow(13, 9) == 10604499373int);
    assert(pow(10, 9) == 1000000000int);
    assert(chain_step(9) == 10int);
    assert(chain_score(9) == 37int);
    assert(pow(13, 10) == 137858491849int);
    assert(pow(10, 10) == 10000000000int);
    assert(chain_step(10) == 13int);
    assert(chain_score(10) == 50int);
    assert(pow(13, 11) == 1792160394037int);
    assert(pow(10, 11) == 100000000000int);
    assert(chain_step(11) == 17int);
    assert(chain_score(11) == 67int);
    assert(pow(13, 12) == 23298085122481int);
    assert(pow(10, 12) == 1000000000000int);
    assert(chain_step(12) == 23int);
    assert(chain_score(12) == 90int);
    assert(pow(13, 13) == 302875106592253int);
    assert(pow(10, 13) == 10000000000000int);
    assert(chain_step(13) == 30int);
    assert(chain_score(13) == 120int);
    assert(pow(13, 14) == 3937376385699289int);
    assert(pow(10, 14) == 100000000000000int);
    assert(chain_step(14) == 39int);
    assert(chain_score(14) == 159int);
    assert(pow(13, 15) == 51185893014090757int);
    assert(pow(10, 15) == 1000000000000000int);
    assert(chain_step(15) == 51int);
    assert(chain_score(15) == 210int);
    assert(pow(13, 16) == 665416609183179841int);
    assert(pow(10, 16) == 10000000000000000int);
    assert(chain_step(16) == 66int);
    assert(chain_score(16) == 276int);
}

proof fn lemma_chain_scores_1()
    requires
        pow(13, 16) == 665416609183179841int,
        pow(10, 16) == 10000000000000000int,
        chain_score(16) == 276int,
    ensures
        pow(13, 32) == 442779263776840698304313192148785281int,
        pow(10, 32) == 100000000000000000000000000000000int,
        chain_score(17) == CHAIN_SCORES[17],
        chain_score(18) == CHAIN_SCORES[18],
        chain_score(19) == CHAIN_SCORES[19],
        chain_score(20) == CHAIN_SCORES[20],
        chain_score(21) == CHAIN_SCORES[21],
        chain_score(22) == CHAIN_SCORES[22],
        chain_score(23) == CHAIN_SCORES[23],
        chain_score(24) == CHAIN_SCORES[24],
        chain_score(25) == CHAIN_SCORES[25],
        chain_score(26) == CHAIN_SCORES[26],
        chain_score(27) == CHAIN_SCORES[27],
        chain_score(28) == CHAIN_SCORES[28],
        chain_score(29) == CHAIN_SCORES[29],
        chain_score(30) == CHAIN_SCORES[30],
        chain_score(31) == CHAIN_SCORES[31],
        chain_score(32) == CHAIN_SCORES[32],
{
    assert(pow(13, 17) == 8650415919381337933int);
    assert(pow(10, 17) == 100000000000000000int);
    assert(chain_step(17) == 86int);
    assert(chain_score(17) == 362int);
    assert(pow(13, 18) == 112455406951957393129int);
    assert(pow(10, 18) == 1000000000000000000int);
    assert(chain_step(18) == 112int);
    assert(chain_score(18) == 474int);
    assert(pow(13, 19) == 1461920290375446110677int);
    assert(pow(10, 19) == 10000000000000000000int);
    assert(chain_step(19) == 146int);
    assert(chain_score(19) == 620int);
    assert(pow(13, 20) == 19004963774880799438801int);
    assert(pow(10, 20) == 100000000000000000000int);
    assert(chain_step(20) == 190int);
    assert(chain_score(20) == 810int);
    assert(pow(13, 21) == 247064529073450392704413int);
    assert(pow(10, 21) == 1000000000000000000000int);
    assert(chain_step(21) == 247int);
    assert(chain_score(21) == 1057int);
    assert(pow(13, 22) == 3211838877954855105157369int);
    assert(pow(10, 22) == 10000000000000000000000int);
    assert(chain_step(22) == 321int);
    assert(chain_score(22) == 1378int);
    assert(pow(13, 23) == 41753905413413116367045797int);
    assert(pow(10, 23) == 100000000000000000000000int);
    assert(chain_step(23) == 417int);
    assert(chain_score(23) == 1795int);
    assert(pow(13, 24) == 542800770374370512771595361int);
    assert(pow(10, 24) == 1000000000000000000000000int);
    assert(chain_step(24) == 542int);
    assert(chain_score(24) == 2337int);
    assert(pow(13, 25) == 7056410014866816666030739693int);
    assert(pow(10, 25) == 10000000000000000000000000int);
    assert(chain_step(25) == 705int);
    assert(chain_score(25) == 3042int);
    assert(pow(13, 26) == 91733330193268616658399616009int);
    assert(pow(10, 26) == 100000000000000000000000000int);
    assert(chain_step(26) == 917int);
    assert(chain_score(26) == 3959int);
    assert(pow(13, 27) == 1192533292512492016559195008117int);
    assert(pow(10, 27) == 1000000000000000000000000000int);
    assert(chain_step(27) == 1192int);
    assert(chain_score(27) == 5151int);
    assert(pow(13, 28) == 15502932802662396215269535105521int);
    assert(pow(10, 28) == 10000000000000000000000000000int);
    assert(chain_step(28) == 1550int);
    assert(chain_score(28) == 6701int);
    assert(pow(13, 29) == 201538126434611150798503956371773int);
    assert(pow(10, 29) == 100000000000000000000000000000int);
    assert(chain_step(29) == 2015int);
    assert(chain_score(29) == 8716int);
    assert(pow(13, 30) == 2619995643649944960380551432833049int);
    assert(pow(10, 30) == 1000000000000000000000000000000int);
    assert(chain_step(30) == 2619int);
    assert(chain_score(30) == 11335int);
    assert(pow(13, 31) == 34059943367449284484947168626829637int);
    assert(pow(10, 31) == 10000000000000000000000000000000int);
    assert(chain_step(31) == 3405int);
    assert(chain_score(31) == 14740int);
    assert(pow(13, 32) == 442779263776840698304313192148785281int);
    assert(pow(10, 32) == 100000000000000000000000000000000int);
    assert(chain_step(32) == 4427int);
    assert(chain_score(32) == 19167int);
}

proof fn lemma_chain_scores_2()
    requires
        pow(13, 32) == 442779263776840698304313192148785281int,
        pow(10, 32) == 100000000000000000000000000000000int,
        chain_score(32) == 19167int,
    ensures
        pow(13, 48) == 294632676319010105335586872991323185304149065116720321int,
        pow(10, 48) == 1000000000000000000000000000000000000000000000000int,
        chain_score(33) == CHAIN_SCORES[33],
        chain_score(34) == CHAIN_SCORES[34],
        chain_score(35) == CHAIN_SCORES[35],
        chain_score(36) == CHAIN_SCORES[36],
        chain_score(37) == CHAIN_SCORES[37],
        chain_score(38) == CHAIN_SCORES[38],
        chain_score(39) == CHAIN_SCORES[39],
        chain_score(40) == CHAIN_SCORES[40],
        chain_score(41) == CHAIN_SCORES[41],
        chain_score(42) == CHAIN_SCORES[42],
        chain_score(43) == CHAIN_SCORES[43],
        chain_score(44) == CHAIN_SCORES[44],
        chain_score(45) == CHAIN_SCORES[45],
        chain_score(46) == CHAIN_SCORES[46],
        chain_score(47) == CHAIN_SCORES[47],
        chain_score(48) == CHAIN_SCORES[48],
{
    assert(pow(13, 33) == 5756130429098929077956071497934208653int);
    assert(pow(10, 33) == 1000000000000000000000000000000000int);
    assert(chain_step(33) == 5756int);
    assert(chain_score(33) == 24923int);
    assert(pow(13, 34) == 74829695578286078013428929473144712489int);
    assert(pow(10, 34) == 10000000000000000000000000000000000int);
    assert(chain_step(34) == 7482int);
    assert(chain_score(34) == 32405int);
    assert(pow(13, 35) == 972786042517719014174576083150881262357int);
    assert(pow(10, 35) == 100000000000000000000000000000000000int);
    assert(chain_step(35) == 9727int);
    assert(chain_score(35) == 42132int);
    assert(pow(13, 36) == 12646218552730347184269489080961456410641int);
    assert(pow(10, 36) == 1000000000000000000000000000000000000int);
    assert(chain_step(36) == 12646int);
    assert(chain_score(36) == 54778int);
    assert(pow(13, 37) == 164400841185494513395503358052498933338333int);
    assert(pow(10, 37) == 10000000000000000000000000000000000000int);
    assert(chain_step(37) == 16440int);
    assert(chain_score(37) == 71218int);
    assert(pow(13, 38) == 2137210935411428674141543654682486133398329int);
    assert(pow(10, 38) == 100000000000000000000000000000000000000int);
    assert(chain_step(38) == 21372int);
    assert(chain_score(38) == 92590int);
    assert(pow(13, 39) == 27783742160348572763840067510872319734178277int);
    assert(pow(10, 39) == 1000000000000000000000000000000000000000int);
    assert(chain_step(39) == 27783int);
    assert(chain_score(39) == 120373int);
    assert(pow(13, 40) == 361188648084531445929920877641340156544317601int);
    assert(pow(10, 40) == 10000000000000000000000000000000000000000int);
    assert(chain_step(40) == 36118int);
    assert(chain_score(40) == 156491int);
    assert(pow(13, 41) == 4695452425098908797088971409337422035076128813int);
    assert(pow(10, 41) == 100000000000000000000000000000000000000000int);
    assert(chain_step(41) == 46954int);
    assert(chain_score(41) == 203445int);
    assert(pow(13, 42) == 61040881526285814362156628321386486455989674569int);
    assert(pow(10, 42) == 1000000000000000000000000000000000000000000int);
    assert(chain_step(42) == 61040int);
    assert(chain_score(42) == 264485int);
    assert(pow(13, 43) == 793531459841715586708036168178024323927865769397int);
    assert(pow(10, 43) == 10000000000000000000000000000000000000000000int);
    assert(chain_step(43) == 79353int);
    assert(chain_score(43) == 343838int);
    assert(pow(13, 44) == 10315908977942302627204470186314316211062255002161int);
    assert(pow(10, 44) == 100000000000000000000000000000000000000000000int);
    assert(chain_step(44) == 103159int);
    assert(chain_score(44) == 446997int);
    assert(pow(13, 45) == 134106816713249934153658112422086110743809315028093int);
    assert(pow(10, 45) == 1000000000000000000000000000000000000000000000int);
    assert(chain_step(45) == 134106int);
    assert(chain_score(45) == 581103int);
    assert(pow(13, 46) == 1743388617272249143997555461487119439669521095365209int);
    assert(pow(10, 46) == 10000000000000000000000000000000000000000000000int);
    assert(chain_step(46) == 174338int);
    assert(chain_score(46) == 755441int);
    assert(pow(13, 47) == 22664052024539238871968220999332552715703774239747717int);
    assert(pow(10, 47) == 100000000000000000000000000000000000000000000000int);
    assert(chain_step(47) == 226640int);
    assert(chain_score(47) == 982081int);
    assert(pow(13, 48) == 294632676319010105335586872991323185304149065116720321int);
    assert(pow(10, 48) == 1000000000000000000000000000000000000000000000000int);
    assert(chain_step(48) == 294632int);
    assert(chain_score(48) == 1276713int);
}

proof fn lemma_chain_scores_3()
    requires
        pow(13, 48) == 294632676319010105335586872991323185304149065116720321int,
        pow(10, 48) == 1000000000000000000000000000000000000000000000000int,
        chain_score(48) == 1276713int,
    ensures
        pow(13, 64) == 196053476430761073330659760423566015424403280004115787589590963842248961int,
        pow(10, 64) == 10000000000000000000000000000000000000000000000000000000000000000int,
        chain_score(49) == CHAIN_SCORES[49],
        chain_score(50) == CHAIN_SCORES[50],
        chain_score(51) == CHAIN_SCORES[51],
        chain_score(52) == CHAIN_SCORES[52],
        chain_score(53) == CHAIN_SCORES[53],
        chain_score(54) == CHAIN_SCORES[54],
        chain_score(55) == CHAIN_SCORES[55],
        chain_score(56) == CHAIN_SCORES[56],
        chain_score(57) == CHAIN_SCORES[57],
        chain_score(58) == CHAIN_SCORES[58],
        chain_score(59) == CHAIN_SCORES[59],
        chain_score(60) == CHAIN_SCORES[60],
        chain_score(61) == CHAIN_SCORES[61],
        chain_score(62) == CHAIN_SCORES[62],
        chain_score(63) == CHAIN_SCORES[63],
        chain_score(64) == CHAIN_SCORES[64],
{
    assert(pow(13, 49) == 3830224792147131369362629348887201408953937846517364173int);
    assert(pow(10, 49) == 10000000000000000000000000000000000000000000000000int);
    assert(chain_step(49) == 383022int);
    assert(chain_score(49) == 1659735int);
    assert(pow(13, 50) == 49792922297912707801714181535533618316401192004725734249int);
    assert(pow(10, 50) == 100000000000000000000000000000000000000000000000000int);
    assert(chain_step(50) == 497929int);
    assert(chain_score(50) == 2157664int);
    assert(pow(13, 51) == 647307989872865201422284359961937038113215496061434545237int);
    assert(pow(10, 51) == 1000000000000000000000000000000000000000000000000000int);
    assert(chain_step(51) == 647307int);
    assert(chain_score(51) == 2804971int);
    assert(pow(13, 52) == 8415003868347247618489696679505181495471801448798649088081int);
    assert(pow(10, 52) == 10000000000000000000000000000000000000000000000000000int);
    assert(chain_step(52) == 841500int);
    assert(chain_score(52) == 3646471int);
    assert(pow(13, 53) == 109395050288514219040366056833567359441133418834382438145053int);
    assert(pow(10, 53) == 100000000000000000000000000000000000000000000000000000int);
    assert(chain_step(53) == 1093950int);
    assert(chain_score(53) == 4740421int);
    assert(pow(13, 54) == 1422135653750684847524758738836375672734734444846971695885689int);
    assert(pow(10, 54) == 1000000000000000000000000000000000000000000000000000000int);
    assert(chain_step(54) == 1422135int);
    assert(chain_score(54) == 6162556int);
    assert(pow(13, 55) == 18487763498758903017821863604872883745551547783010632046513957int);
    assert(pow(10, 55) == 10000000000000000000000000000000000000000000000000000000int);
    assert(chain_step(55) == 1848776int);
    assert(chain_score(55) == 8011332int);
    assert(pow(13, 56) == 240340925483865739231684226863347488692170121179138216604681441int);
    assert(pow(10, 56) == 100000000000000000000000000000000000000000000000000000000int);
    assert(chain_step(56) == 2403409int);
    assert(chain_score(56) == 10414741int);
    assert(pow(13, 57) == 3124432031290254610011894949223517352998211575328796815860858733int);
    assert(pow(10, 57) == 1000000000000000000000000000000000000000000000000000000000int);
    assert(chain_step(57) == 3124432int);
    assert(chain_score(57) == 13539173int);
    assert(pow(13, 58) == 40617616406773309930154634339905725588976750479274358606191163529int);
    assert(pow(10, 58) == 10000000000000000000000000000000000000000000000000000000000int);
    assert(chain_step(58) == 4061761int);
    assert(chain_score(58) == 17600934int);
    assert(pow(13, 59) == 528029013288053029092010246418774432656697756230566661880485125877int);
    assert(pow(10, 59) == 100000000000000000000000000000000000000000000000000000000000int);
    assert(chain_step(59) == 5280290int);
    assert(chain_score(59) == 22881224int);
    assert(pow(13, 60) == 6864377172744689378196133203444067624537070830997366604446306636401int);
    assert(pow(10, 60) == 1000000000000000000000000000000000000000000000000000000000000int);
    assert(chain_step(60) == 6864377int);
    assert(chain_score(60) == 29745601int);
    assert(pow(13, 61) == 89236903245680961916549731644772879118981920802965765857801986273213int);
    assert(pow(10, 61) == 10000000000000000000000000000000000000000000000000000000000000int);
    assert(chain_step(61) == 8923690int);
    assert(chain_score(61) == 38669291int);
    assert(pow(13, 62) == 1160079742193852504915146511382047428546764970438554956151425821551769int);
    assert(pow(10, 62) == 100000000000000000000000000000000000000000000000000000000000000int);
    assert(chain_step(62) == 11600797int);
    assert(chain_score(62) == 50270088int);
    assert(pow(13, 63) == 15081036648520082563896904647966616571107944615701214429968535680172997int);
    assert(pow(10, 63) == 1000000000000000000000000000000000000000000000000000000000000000int);
    assert(chain_step(63) == 15081036int);
    assert(chain_score(63) == 65351124int);
    assert(pow(13, 64) == 196053476430761073330659760423566015424403280004115787589590963842248961int);
    assert(pow(10, 64) == 10000000000000000000000000000000000000000000000000000000000000000int);
    assert(chain_step(64) == 19605347int);
    assert(chain_score(64) == 84956471int);
}

proof fn lemma_chain_scores_4()
    requires
        pow(13, 64) == 196053476430761073330659760423566015424403280004115787589590963842248961int,
        pow(10, 64) == 10000000000000000000000000000000000000000000000000000000000000000int,
        chain_score(64) == 84956471int,
    ensures
        pow(13, 79) == 10035172269625500103459385725807792077756541675943228751712485551784766198004089442953477int,
        pow(10, 79) == 10000000000000000000000000000000000000000000000000000000000000000000000000000000int,
        chain_score(65) == CHAIN_SCORES[65],
        chain_score(66) == CHAIN_SCORES[66],
        chain_score(67) == CHAIN_SCORES[67],
        chain_score(68) == CHAIN_SCORES[68],
        chain_score(69) == CHAIN_SCORES[69],
        chain_score(70) == CHAIN_SCORES[70],
        chain_score(71) == CHAIN_SCORES[71],
        chain_score(72) == CHAIN_SCORES[72],
        chain_score(73) == CHAIN_SCORES[73],
        chain_score(74) == CHAIN_SCORES[74],
        chain_score(75) == CHAIN_SCORES[75],
        chain_score(76) == CHAIN_SCORES[76],
        chain_score(77) == CHAIN_SCORES[77],
        chain_score(78) == CHAIN_SCORES[78],
        chain_score(79) == 4348574605int,
{
    assert(pow(13, 65) == 2548695193599893953298576885506358200517242640053505238664682529949236493int);
    assert(pow(10, 65) == 100000000000000000000000000000000000000000000000000000000000000000int);
    assert(chain_step(65) == 25486951int);
    assert(chain_score(65) == 110443422int);
    assert(pow(13, 66) == 33133037516798621392881499511582656606724154320695568102640872889340074409int);
    assert(pow(10, 66) == 1000000000000000000000000000000000000000000000000000000000000000000int);
    assert(chain_step(66) == 33133037int);
    assert(chain_score(66) == 143576459int);
    assert(pow(13, 67) == 430729487718382078107459493650574535887414006169042385334331347561420967317int);
    assert(pow(10, 67) == 10000000000000000000000000000000000000000000000000000000000000000000int);
    assert(chain_step(67) == 43072948int);
    assert(chain_score(67) == 186649407int);
    assert(pow(13, 68) == 5599483340338967015396973417457468966536382080197551009346307518298472575121int);
    assert(pow(10, 68) == 100000000000000000000000000000000000000000000000000000000000000000000int);
    assert(chain_step(68) == 55994833int);
    assert(chain_score(68) == 242644240int);
    assert(pow(13, 69) == 72793283424406571200160654426947096564972967042568163121501997737880143476573int);
    assert(pow(10, 69) == 1000000000000000000000000000000000000000000000000000000000000000000000int);
    assert(chain_step(69) == 72793283int);
    assert(chain_score(69) == 315437523int);
    assert(pow(13, 70) == 946312684517285425602088507550312255344648571553386120579525970592441865195449int);
    assert(pow(10, 70) == 10000000000000000000000000000000000000000000000000000000000000000000000int);
    assert(chain_step(70) == 94631268int);
    assert(chain_score(70) == 410068791int);
    assert(pow(13, 71) == 12302064898724710532827150598154059319480431430194019567533837617701744247540837int);
    assert(pow(10, 71) == 100000000000000000000000000000000000000000000000000000000000000000000000int);
    assert(chain_step(71) == 123020648int);
    assert(chain_score(71) == 533089439int);
    assert(pow(13, 72) == 159926843683421236926752957776002771153245608592522254377939889030122675218030881int);
    assert(pow(10, 72) == 1000000000000000000000000000000000000000000000000000000000000000000000000int);
    assert(chain_step(72) == 159926843int);
    assert(chain_score(72) == 693016282int);
    assert(pow(13, 73) == 2079048967884476080047788451088036024992192911702789306913218557391594777834401453int);
    assert(pow(10, 73) == 10000000000000000000000000000000000000000000000000000000000000000000000000int);
    assert(chain_step(73) == 207904896int);
    assert(chain_score(73) == 900921178int);
    assert(pow(13, 74) == 27027636582498189040621249864144468324898507852136260989871841246090732111847218889int);
    assert(pow(10, 74) == 100000000000000000000000000000000000000000000000000000000000000000000000000int);
    assert(chain_step(74) == 270276365int);
    assert(chain_score(74) == 1171197543int);
    assert(pow(13, 75) == 351359275572476457528076248233878088223680602077771392868333936199179517454013845557int);
    assert(pow(10, 75) == 1000000000000000000000000000000000000000000000000000000000000000000000000000int);
    assert(chain_step(75) == 351359275int);
    assert(chain_score(75) == 1522556818int);
    assert(pow(13, 76) == 4567670582442193947864991227040415146907847827011028107288341170589333726902179992241int);
    assert(pow(10, 76) == 10000000000000000000000000000000000000000000000000000000000000000000000000000int);
    assert(chain_step(76) == 456767058int);
    assert(chain_score(76) == 1979323876int);
    assert(pow(13, 77) == 59379717571748521322244885951525396909802021751143365394748435217661338449728339899133int);
    assert(pow(10, 77) == 100000000000000000000000000000000000000000000000000000000000000000000000000000int);
    assert(chain_step(77) == 593797175int);
    assert(chain_score(77) == 2573121051int);
    assert(pow(13, 78) == 771936328432730777189183517369830159827426282764863750131729657829597399846468418688729int);
    assert(pow(10, 78) == 1000000000000000000000000000000000000000000000000000000000000000000000000000000int);
    assert(chain_step(78) == 771936328int);
    assert(chain_score(78) == 3345057379int);
    assert(pow(13, 79) == 10035172269625500103459385725807792077756541675943228751712485551784766198004089442953477int);
    assert(pow(10, 79) == 10000000000000000000000000000000000000000000000000000000000000000000000000000000int);
    assert(chain_step(79) == 1003517226int);
    assert(chain_score(79) == 4348574605int);
}

/// The table of cascade scores holds the scores, and a cascade of 79
/// rounds scores more than `SCORE_CAP`.
pub proof fn lemma_chain_scores()
    ensures
        forall|n: nat| n <= 78 ==> #[trigger] chain_score(n) == CHAIN_SCORES[n as int],
        chain_score(79) > SCORE_CAP,
{
    lemma_chain_scores_0();
    lemma_chain_scores_1();
    lemma_chain_scores_2();
    lemma_chain_scores_3();
    lemma_chain_scores_4();
    assert forall|n: nat| n <= 78 implies #[trigger] chain_score(n) == CHAIN_SCORES[n as int] by {
        lemma_pick_79(n as int);
    }
}

/// A number from 0 to 78 is one of 79 numbers.
proof fn lemma_pick_79(n: int)
    requires
        0 <= n <= 78,
    ensures

        n == 0 || n == 1 || n == 2 || n == 3 || n == 4 || n == 5 || n == 6 || n == 7 || n == 8 || n == 9 || n == 10 || n == 11 || n == 12 || n == 13 || n == 14 || n == 15 || n == 16 || n == 17 || n == 18 || n == 19 || n == 20 || n == 21 || n == 22 || n == 23 || n == 24 || n == 25 || n == 26 || n == 27 || n == 28 || n == 29 || n == 30 || n == 31 || n == 32 || n == 33 || n == 34 || n == 35 || n == 36 || n == 37 || n == 38 || n == 39 || n == 40 || n == 41 || n == 42 || n == 43 || n == 44 || n == 45 || n == 46 || n == 47 || n == 48 || n == 49 || n == 50 || n == 51 || n == 52 || n == 53 || n == 54 || n == 55 || n == 56 || n == 57 || n == 58 || n == 59 || n == 60 || n == 61 || n == 62 || n == 63 || n == 64 || n == 65 || n == 66 || n == 67 || n == 68 || n == 69 || n == 70 || n == 71 || n == 72 || n == 73 || n == 74 || n == 75 || n == 76 || n == 77 || n == 78,
{
}

/// A longer cascade never scores less.
pub proof fn lemma_chain_score_grows(a: nat, b: nat)
    requires
        a <= b,
    ensures
        0 <= chain_score(a) <= chain_score(b),
    decreases b,
{
    if b > 0 {
        lemma_pow_positive(13, b);
        lemma_pow_positive(10, b);
        assert(chain_step(b) >= 0) by (nonlinear_arith)
            requires
                pow(13, b) > 0,
                pow(10, b) > 0,
                chain_step(b) == pow(13, b) / pow(10, b),
        ;
        if a < b {
            lemma_chain_score_grows(a, (b - 1) as nat);
        } else {
            lemma_chain_score_grows(0, (b - 1) as nat);
        }
    }
}

pub proof fn lemma_pow_positive(b: int, n: nat)
    requires
        b > 0,
    ensures
        pow(b, n) > 0,
    decreases n,
{
    if n > 0 {
        lemma_pow_positive(b, (n - 1) as nat);
        assert(b * pow(b, (n - 1) as nat) > 0) by (nonlinear_arith)
            requires
                b > 0,
                pow(b, (n - 1) as nat) > 0,
        ;
    }
}

/// Twelfth powers grow with their base.
pub proof fn lemma_pow12_grows(a: int, b: int)
    requires
        0 <= a < b,
    ensures
        0 <= pow12(a) < pow12(b),
{
    let ca = a * a * a;
    let cb = b * b * b;
    assert(0 <= ca < cb) by (nonlinear_arith)
        requires
            0 <= a < b,
            ca == a * a * a,
            cb == b * b * b,
    ;
    let da = ca * ca;
    let db = cb * cb;
    assert(0 <= da < db) by (nonlinear_arith)
        requires
            0 <= ca < cb,
            da == ca * ca,
            db == cb * cb,
    ;
    assert(0 <= da * da < db * db) by (nonlinear_arith)
        requires
            0 <= da < db,
    ;
}

/// There is one score for each number of removed blocks.
pub proof fn lemma_bomb_score_unique(n: nat, s: int)
    requires
        is_bomb_score(n, s),
    ensures
        bomb_score(n) == s,
{
    let t = bomb_score(n);
    if t < s {
        if t + 1 < s {
            lemma_pow12_grows(t + 1, s);
        }
    } else if s < t {
        if s + 1 < t {
            lemma_pow12_grows(s + 1, t);
        }
    }
}

proof fn lemma_bomb_scores_0()
    ensures
        pow(2, 15) == 32768int,
        pow(25, 12) == 59604644775390625int,
        bomb_score(0) == BOMB_SCORES[0],
        bomb_score(1) == BOMB_SCORES[1],
        bomb_score(2) == BOMB_SCORES[2],
        bomb_score(3) == BOMB_SCORES[3],
        bomb_score(4) == BOMB_SCORES[4],
        bomb_score(5) == BOMB_SCORES[5],
        bomb_score(6) == BOMB_SCORES[6],
        bomb_score(7) == BOMB_SCORES[7],
        bomb_score(8) == BOMB_SCORES[8],
        bomb_score(9) == BOMB_SCORES[9],
        bomb_score(10) == BOMB_SCORES[10],
        bomb_score(11) == BOMB_SCORES[11],
        bomb_score(12) == BOMB_SCORES[12],
        bomb_score(13) == BOMB_SCORES[13],
        bomb_score(14) == BOMB_SCORES[14],
        bomb_score(15) == BOMB_SCORES[15],
{
    assert(pow(25, 12) == 59604644775390625int) by {
        reveal_with_fuel(pow, 13);
    }
    assert(pow(2, 0) == 1);
    assert(pow12(25) == 59604644775390625int && pow12(26) == 95428956661682176int) by (nonlinear_arith);
    lemma_bomb_score_unique(0, 25);
    assert(pow(2, 1) == 2int);
    assert(pow12(26) == 95428956661682176int && pow12(27) == 150094635296999121int) by (nonlinear_arith);
    lemma_bomb_score_unique(1, 26);
    assert(pow(2, 2) == 4int);
    assert(pow12(28) == 232218265089212416int && pow12(29) == 353814783205469041int) by (nonlinear_arith);
    lemma_bomb_score_unique(2, 28);
    assert(pow(2, 3) == 8int);
    assert(pow12(29) == 353814783205469041int && pow12(30) == 531441000000000000int) by (nonlinear_arith);
    lemma_bomb_score_unique(3, 29);
    assert(pow(2, 4) == 16int);
    assert(pow12(31) == 787662783788549761int && pow12(32) == 1152921504606846976int) by (nonlinear_arith);
    lemma_bomb_score_unique(4, 31);
    assert(pow(2, 5) == 32int);
    assert(pow12(33) == 1667889514952984961int && pow12(34) == 2386420683693101056int) by (nonlinear_arith);
    lemma_bomb_score_unique(5, 33);
    assert(pow(2, 6) == 64int);
    assert(pow12(35) == 3379220508056640625int && pow12(36) == 4738381338321616896int) by (nonlinear_arith);
    lemma_bomb_score_unique(6, 35);
    assert(pow(2, 7) == 128int);
    assert(pow12(37) == 6582952005840035281int && pow12(38) == 9065737908494995456int) by (nonlinear_arith);
    lemma_bomb_score_unique(7, 37);
    assert(pow(2, 8) == 256int);
    assert(pow12(39) == 12381557655576425121int && pow12(40) == 16777216000000000000int) by (nonlinear_arith);
    lemma_bomb_score_unique(8, 39);
    assert(pow(2, 9) == 512int);
    assert(pow12(42) == 30129469486639681536int && pow12(43) == 39959630797262576401int) by (nonlinear_arith);
    lemma_bomb_score_unique(9, 42);
    assert(pow(2, 10) == 1024int);
    assert(pow12(44) == 52654090776777588736int && pow12(45) == 68952523554931640625int) by (nonlinear_arith);
    lemma_bomb_score_unique(10, 44);
    assert(pow(2, 11) == 2048int);
    assert(pow12(47) == 116191483108948578241int && pow12(48) == 149587343098087735296int) by (nonlinear_arith);
    lemma_bomb_score_unique(11, 47);
    assert(pow(2, 12) == 4096int);
    assert(pow12(50) == 244140625000000000000int && pow12(51) == 309629344375621415601int) by (nonlinear_arith);
    lemma_bomb_score_unique(12, 50);
    assert(pow(2, 13) == 8192int);
    assert(pow12(52) == 390877006486250192896int && pow12(53) == 491258904256726154641int) by (nonlinear_arith);
    lemma_bomb_score_unique(13, 52);
    assert(pow(2, 14) == 16384int);
    assert(pow12(56) == 951166013805414055936int && pow12(57) == 1176246293903439668001int) by (nonlinear_arith);
    lemma_bomb_score_unique(14, 56);
    assert(pow(2, 15) == 32768int);
    assert(pow12(59) == 1779197418239532716881int && pow12(60) == 2176782336000000000000int) by (nonlinear_arith);
    lemma_bomb_score_unique(15, 59);
}

proof fn lemma_bomb_scores_1()
    requires
        pow(2, 15) == 32768int,
        pow(25, 12) == 59604644775390625int,
    ensures
        pow(2, 31) == 2147483648int,
        pow(25, 12) == 59604644775390625int,
        bomb_score(16) == BOMB_SCORES[16],
        bomb_score(17) == BOMB_SCORES[17],
        bomb_score(18) == BOMB_SCORES[18],
        bomb_score(19) == BOMB_SCORES[19],
        bomb_score(20) == BOMB_SCORES[20],
        bomb_score(21) == BOMB_SCORES[21],
        bomb_score(22) == BOMB_SCORES[22],
        bomb_score(23) == BOMB_SCORES[23],
        bomb_score(24) == BOMB_SCORES[24],
        bomb_score(25) == BOMB_SCORES[25],
        bomb_score(26) == BOMB_SCORES[26],
        bomb_score(27) == BOMB_SCORES[27],
        bomb_score(28) == BOMB_SCORES[28],
        bomb_score(29) == BOMB_SCORES[29],
        bomb_score(30) == BOMB_SCORES[30],
        bomb_score(31) == BOMB_SCORES[31],
{
    assert(pow(2, 16) == 65536int);
    assert(pow12(62) == 3226266762397899821056int && pow12(63) == 3909188328478827879681int) by (nonlinear_arith);
    lemma_bomb_score_unique(16, 62);
    assert(pow(2, 17) == 131072int);
    assert(pow12(66) == 6831675453247426400256int && pow12(67) == 8182718904632857144561int) by (nonlinear_arith);
    lemma_bomb_score_unique(17, 66);
    assert(pow(2, 18) == 262144int);
    assert(pow12(70) == 13841287201000000000000int && pow12(71) == 16409682740640811134241int) by (nonlinear_arith);
    lemma_bomb_score_unique(18, 70);
    assert(pow(2, 19) == 524288int);
    assert(pow12(74) == 26963771415920784510976int && pow12(75) == 31676352024078369140625int) by (nonlinear_arith);
    lemma_bomb_score_unique(19, 74);
    assert(pow(2, 20) == 1048576int);
    assert(pow12(79) == 59091511031674153381441int && pow12(80) == 68719476736000000000000int) by (nonlinear_arith);
    lemma_bomb_score_unique(20, 79);
    assert(pow(2, 21) == 2097152int);
    assert(pow12(84) == 123410307017276135571456int && pow12(85) == 142241757136172119140625int) by (nonlinear_arith);
    lemma_bomb_score_unique(21, 84);
    assert(pow(2, 22) == 4194304int);
    assert(pow12(89) == 246990403565262140303521int && pow12(90) == 282429536481000000000000int) by (nonlinear_arith);
    lemma_bomb_score_unique(22, 89);
    assert(pow(2, 23) == 8388608int);
    assert(pow12(94) == 475920314814253376475136int && pow12(95) == 540360087662636962890625int) by (nonlinear_arith);
    lemma_bomb_score_unique(23, 94);
    assert(pow(2, 24) == 16777216int);
    assert(pow12(100) == 1000000000000000000000000int && pow12(101) == 1126825030131969720661201int) by (nonlinear_arith);
    lemma_bomb_score_unique(24, 100);
    assert(pow(2, 25) == 33554432int);
    assert(pow12(105) == 1795856326022129150390625int && pow12(106) == 2012196471835550329409536int) by (nonlinear_arith);
    lemma_bomb_score_unique(25, 105);
    assert(pow(2, 26) == 67108864int);
    assert(pow12(112) == 3895975992546975973113856int && pow12(113) == 4334523100191686738306881int) by (nonlinear_arith);
    lemma_bomb_score_unique(26, 112);
    assert(pow(2, 27) == 134217728int);
    assert(pow12(118) == 7287592625109126008344576int && pow12(119) == 8064241715186276625588961int) by (nonlinear_arith);
    lemma_bomb_score_unique(27, 118);
    assert(pow(2, 28) == 268435456int);
    assert(pow12(125) == 14551915228366851806640625int && pow12(126) == 16012035393449278995173376int) by (nonlinear_arith);
    lemma_bomb_score_unique(28, 125);
    assert(pow(2, 29) == 536870912int);
    assert(pow12(133) == 30635127461052805121505361int && pow12(134) == 33516416633376182864121856int) by (nonlinear_arith);
    lemma_bomb_score_unique(29, 133);
    assert(pow(2, 30) == 1073741824int);
    assert(pow12(141) == 61748917974902741368975281int && pow12(142) == 67214060505664762405851136int) by (nonlinear_arith);
    lemma_bomb_score_unique(30, 141);
    assert(pow(2, 31) == 2147483648int);
    assert(pow12(149) == 119738888098469732352733201int && pow12(150) == 129746337890625000000000000int) by (nonlinear_arith);
    lemma_bomb_score_unique(31, 149);
}

proof fn lemma_bomb_scores_2()
    requires
        pow(2, 31) == 2147483648int,
        pow(25, 12) == 59604644775390625int,
    ensures
        pow(2, 47) == 140737488355328int,
        pow(25, 12) == 59604644775390625int,
        bomb_score(32) == BOMB_SCORES[32],
        bomb_score(33) == BOMB_SCORES[33],
        bomb_score(34) == BOMB_SCORES[34],
        bomb_score(35) == BOMB_SCORES[35],
        bomb_score(36) == BOMB_SCORES[36],
        bomb_score(37) == BOMB_SCORES[37],
        bomb_score(38) == BOMB_SCORES[38],
        bomb_score(39) == BOMB_SCORES[39],
        bomb_score(40) == BOMB_SCORES[40],
        bomb_score(41) == BOMB_SCORES[41],
        bomb_score(42) == BOMB_SCORES[42],
        bomb_score(43) == BOMB_SCORES[43],
        bomb_score(44) == BOMB_SCORES[44],
        bomb_score(45) == BOMB_SCORES[45],
        bomb_score(46) == BOMB_SCORES[46],
        bomb_score(47) == BOMB_SCORES[47],
{
    assert(pow(2, 32) == 4294967296int);
    assert(pow12(158) == 242038829185737332250382336int && pow12(159) == 261075123337098804348567681int) by (nonlinear_arith);
    lemma_bomb_score_unique(32, 158);
    assert(pow(2, 33) == 8589934592int);
    assert(pow12(168) == 505488617542763051300683776int && pow12(169) == 542800770374370512771595361int) by (nonlinear_arith);
    lemma_bomb_score_unique(33, 168);
    assert(pow(2, 34) == 17179869184int);
    assert(pow12(178) == 1011672693003313726683222016int && pow12(179) == 1082022699327332498100696241int) by (nonlinear_arith);
    lemma_bomb_score_unique(34, 178);
    assert(pow(2, 35) == 34359738368int);
    assert(pow12(188) == 1949369609479181830042157056int && pow12(189) == 2077502954475116767205550321int) by (nonlinear_arith);
    lemma_bomb_score_unique(35, 188);
    assert(pow(2, 36) == 68719476736int);
    assert(pow12(200) == 4096000000000000000000000000int && pow12(201) == 4348632317396990233762642401int) by (nonlinear_arith);
    lemma_bomb_score_unique(36, 200);
    assert(pow(2, 37) == 137438953472int);
    assert(pow12(211) == 7787345861668898615544483121int && pow12(212) == 8241956748638414149261459456int) by (nonlinear_arith);
    lemma_bomb_score_unique(37, 211);
    assert(pow(2, 38) == 274877906944int);
    assert(pow12(224) == 15957917665472413585874354176int && pow12(225) == 16834112196028232574462890625int) by (nonlinear_arith);
    lemma_bomb_score_unique(38, 224);
    assert(pow(2, 39) == 549755813888int);
    assert(pow12(237) == 31403651714183943747186386481int && pow12(238) == 33031134065402989058412384256int) by (nonlinear_arith);
    lemma_bomb_score_unique(39, 237);
    assert(pow(2, 40) == 1099511627776int);
    assert(pow12(251) == 62529457064557415999535378001int && pow12(252) == 65585296971568246764230148096int) by (nonlinear_arith);
    lemma_bomb_score_unique(40, 251);
    assert(pow(2, 41) == 2199023255552int);
    assert(pow12(266) == 125481482080472289777685958656int && pow12(267) == 131260827061126477105043503761int) by (nonlinear_arith);
    lemma_bomb_score_unique(41, 266);
    assert(pow(2, 42) == 4398046511104int);
    assert(pow12(282) == 252923568025201628647322750976int && pow12(283) == 263898685087308495981516810961int) by (nonlinear_arith);
    lemma_bomb_score_unique(42, 282);
    assert(pow(2, 43) == 8796093022208int);
    assert(pow12(299) == 510568785444411275443565936401int && pow12(300) == 531441000000000000000000000000int) by (nonlinear_arith);
    lemma_bomb_score_unique(43, 299);
    assert(pow(2, 44) == 17592186044416int);
    assert(pow12(317) == 1029701028696997844179291768561int && pow12(318) == 1069363705188756702611733221376int) by (nonlinear_arith);
    lemma_bomb_score_unique(44, 317);
    assert(pow(2, 45) == 35184372088832int);
    assert(pow12(336) == 2070481377455157458127600746496int && pow12(337) == 2145649651607337092060800582081int) by (nonlinear_arith);
    lemma_bomb_score_unique(45, 336);
    assert(pow(2, 46) == 70368744177664int);
    assert(pow12(356) == 4143811350541573024494477377536int && pow12(357) == 4285668681360310036179623022801int) by (nonlinear_arith);
    lemma_bomb_score_unique(46, 356);
    assert(pow(2, 47) == 140737488355328int);
    assert(pow12(377) == 8243206936713178643875538610721int && pow12(378) == 8509452101530078278473934114816int) by (nonlinear_arith);
    lemma_bomb_score_unique(47, 377);
}

proof fn lemma_bomb_scores_3()
    requires
        pow(2, 47) == 140737488355328int,
        pow(25, 12) == 59604644775390625int,
    ensures
        pow(2, 63) == 9223372036854775808int,
        pow(25, 12) == 59604644775390625int,
        bomb_score(48) == BOMB_SCORES[48],
        bomb_score(49) == BOMB_SCORES[49],
        bomb_score(50) == BOMB_SCORES[50],
        bomb_score(51) == BOMB_SCORES[51],
        bomb_score(52) == BOMB_SCORES[52],
        bomb_score(53) == BOMB_SCORES[53],
        bomb_score(54) == BOMB_SCORES[54],
        bomb_score(55) == BOMB_SCORES[55],
        bomb_score(56) == BOMB_SCORES[56],
        bomb_score(57) == BOMB_SCORES[57],
        bomb_score(58) == BOMB_SCORES[58],
        bomb_score(59) == BOMB_SCORES[59],
        bomb_score(60) == BOMB_SCORES[60],
        bomb_score(61) == BOMB_SCORES[61],
        bomb_score(62) == BOMB_SCORES[62],
        bomb_score(63) == BOMB_SCORES[63],
{
    assert(pow(2, 48) == 281474976710656int);
    assert(pow12(400) == 16777216000000000000000000000000int && pow12(401) == 17287511078984605626766090564801int) by (nonlinear_arith);
    lemma_bomb_score_unique(48, 400);
    assert(pow(2, 49) == 562949953421312int);
    assert(pow12(423) == 32815906717500287775869592309921int && pow12(424) == 33759054842422944355374937931776int) by (nonlinear_arith);
    lemma_bomb_score_unique(49, 423);
    assert(pow(2, 50) == 1125899906842624int);
    assert(pow12(448) == 65363630757775006047741354704896int && pow12(449) == 67136097368206902852275559609601int) by (nonlinear_arith);
    lemma_bomb_score_unique(50, 448);
    assert(pow(2, 51) == 2251799813685248int);
    assert(pow12(475) == 131923849527010977268218994140625int && pow12(476) == 135295525131890643183257125912576int) by (nonlinear_arith);
    lemma_bomb_score_unique(51, 475);
    assert(pow(2, 52) == 4503599627370496int);
    assert(pow12(503) == 262310587822735519273195371913441int && pow12(504) == 268637376395543538746286686601216int) by (nonlinear_arith);
    lemma_bomb_score_unique(52, 503);
    assert(pow(2, 53) == 9007199254740992int);
    assert(pow12(533) == 525686117678205789920105722386961int && pow12(534) == 537644347642374050222258191405056int) by (nonlinear_arith);
    lemma_bomb_score_unique(53, 533);
    assert(pow(2, 54) == 18014398509481984int);
    assert(pow12(565) == 1058233178757736020094453369140625int && pow12(566) == 1080929014117615599540292857696256int) by (nonlinear_arith);
    lemma_bomb_score_unique(54, 565);
    assert(pow(2, 55) == 36028797018963968int);
    assert(pow12(599) == 2133643557240451317422184503752801int && pow12(600) == 2176782336000000000000000000000000int) by (nonlinear_arith);
    lemma_bomb_score_unique(55, 599);
    assert(pow(2, 56) == 72057594037927936int);
    assert(pow12(634) == 4217655413542903169758379084025856int && pow12(635) == 4298181034233585027335625244140625int) by (nonlinear_arith);
    lemma_bomb_score_unique(56, 634);
    assert(pow(2, 57) == 144115188075855872int);
    assert(pow12(672) == 8480691722056324948490652657647616int && pow12(673) == 8633378286317816667400987659265921int) by (nonlinear_arith);
    lemma_bomb_score_unique(57, 672);
    assert(pow(2, 58) == 288230376151711744int);
    assert(pow12(712) == 16973051291818283108329379338387456int && pow12(713) == 17261334085805692209687727871693281int) by (nonlinear_arith);
    lemma_bomb_score_unique(58, 712);
    assert(pow(2, 59) == 576460752303423488int);
    assert(pow12(755) == 34305473619537968466244336181640625int && pow12(756) == 34854715807867200628629234134286336int) by (nonlinear_arith);
    lemma_bomb_score_unique(59, 755);
    assert(pow(2, 60) == 1152921504606846976int);
    assert(pow12(800) == 68719476736000000000000000000000000int && pow12(801) == 69757385194192116119181424682249601int) by (nonlinear_arith);
    lemma_bomb_score_unique(60, 800);
    assert(pow(2, 61) == 2305843009213693952int);
    assert(pow12(847) == 136332978818927369783620603616447041int && pow12(848) == 138277088634564380079615745768554496int) by (nonlinear_arith);
    lemma_bomb_score_unique(61, 847);
    assert(pow(2, 62) == 4611686018427387904int);
    assert(pow12(897) == 271337185905363372633004124806883841int && pow12(898) == 274989454820175474082920692160925696int) by (nonlinear_arith);
    lemma_bomb_score_unique(62, 897);
    assert(pow(2, 63) == 9223372036854775808int);
    assert(pow12(951) == 547225344391761231308486996775826401int && pow12(952) == 554170470940224074478621187737911296int) by (nonlinear_arith);
    lemma_bomb_score_unique(63, 951);
}

proof fn lemma_bomb_scores_4()
    requires
        pow(2, 63) == 9223372036854775808int,
        pow(25, 12) == 59604644775390625int,
    ensures
        pow(2, 79) == 604462909807314587353088int,
        pow(25, 12) == 59604644775390625int,
        bomb_score(64) == BOMB_SCORES[64],
        bomb_score(65) == BOMB_SCORES[65],
        bomb_score(66) == BOMB_SCORES[66],
        bomb_score(67) == BOMB_SCORES[67],
        bomb_score(68) == BOMB_SCORES[68],
        bomb_score(69) == BOMB_SCORES[69],
        bomb_score(70) == BOMB_SCORES[70],
        bomb_score(71) == BOMB_SCORES[71],
        bomb_score(72) == BOMB_SCORES[72],
        bomb_score(73) == BOMB_SCORES[73],
        bomb_score(74) == BOMB_SCORES[74],
        bomb_score(75) == BOMB_SCORES[75],
        bomb_score(76) == BOMB_SCORES[76],
        bomb_score(77) == BOMB_SCORES[77],
        bomb_score(78) == BOMB_SCORES[78],
        bomb_score(79) == BOMB_SCORES[79],
{
    assert(pow(2, 64) == 18446744073709551616int);
    assert(pow12(1007) == 1087310661915506784528955648196203201int && pow12(1008) == 1100338693716146334704790268318580736int) by (nonlinear_arith);
    lemma_bomb_score_unique(64, 1007);
    assert(pow(2, 65) == 36893488147419103232int);
    assert(pow12(1067) == 2177574554719178568952363844696140561int && pow12(1068) == 2202191247943164109710369551995109376int) by (nonlinear_arith);
    lemma_bomb_score_unique(65, 1067);
    assert(pow(2, 66) == 73786976294838206464int);
    assert(pow12(1131) == 4380778137653788371679860114820178961int && pow12(1132) == 4427485241825753495717039545123864576int) by (nonlinear_arith);
    lemma_bomb_score_unique(66, 1131);
    assert(pow(2, 67) == 147573952589676412928int);
    assert(pow12(1198) == 8739404010456888596161267727371472896int && pow12(1199) == 8827346965351215233085892611935025601int) by (nonlinear_arith);
    lemma_bomb_score_unique(67, 1198);
    assert(pow(2, 68) == 295147905179352825856int);
    assert(pow12(1269) == 17439718281855070435895912006776726161int && pow12(1270) == 17605349516220764271966721000000000000int) by (nonlinear_arith);
    lemma_bomb_score_unique(68, 1269);
    assert(pow(2, 69) == 590295810358705651712int);
    assert(pow12(1345) == 35048336677402628360949486855712890625int && pow12(1346) == 35362317460757777069674445452353212416int) by (nonlinear_arith);
    lemma_bomb_score_unique(69, 1345);
    assert(pow(2, 70) == 1180591620717411303424int);
    assert(pow12(1425) == 70109742516484240770399570465087890625int && pow12(1426) == 70702424415460115290880933362455678976int) by (nonlinear_arith);
    lemma_bomb_score_unique(70, 1425);
    assert(pow(2, 71) == 2361183241434822606848int);
    assert(pow12(1510) == 140515219945627518837736801000000000000int && pow12(1511) == 141635973549804939726465612806747874721int) by (nonlinear_arith);
    lemma_bomb_score_unique(71, 1510);
    assert(pow(2, 72) == 4722366482869645213696int);
    assert(pow12(1600) == 281474976710656000000000000000000000000int && pow12(1601) == 283593310952295487233770750853288979201int) by (nonlinear_arith);
    lemma_bomb_score_unique(72, 1600);
    assert(pow(2, 73) == 9444732965739290427392int);
    assert(pow12(1695) == 562388498752189988255016392949462890625int && pow12(1696) == 566382955047175700806106094667999215616int) by (nonlinear_arith);
    lemma_bomb_score_unique(73, 1695);
    assert(pow(2, 74) == 18889465931478580854784int);
    assert(pow12(1795) == 1118854041532513098421105524726806640625int && pow12(1796) == 1126356806943438741843643155091151650816int) by (nonlinear_arith);
    lemma_bomb_score_unique(74, 1795);
    assert(pow(2, 75) == 37778931862957161709568int);
    assert(pow12(1902) == 2241435010628654003439562738793784938496int && pow12(1903) == 2255617521196952458737270300295894223041int) by (nonlinear_arith);
    lemma_bomb_score_unique(75, 1902);
    assert(pow(2, 76) == 75557863725914323419136int);
    assert(pow12(2015) == 4480233052860346625906505927011962890625int && pow12(2016) == 4506987289461335386950820939032906694656int) by (nonlinear_arith);
    lemma_bomb_score_unique(76, 2015);
    assert(pow(2, 77) == 151115727451828646838272int);
    assert(pow12(2135) == 8969630489485512025967582263066650390625int && pow12(2136) == 9020175351575200193373673684971968004096int) by (nonlinear_arith);
    lemma_bomb_score_unique(77, 2135);
    assert(pow(2, 78) == 302231454903657293676544int);
    assert(pow12(2262) == 17943667251829917170400707030303453024256int && pow12(2263) == 18039090918757635072577035418741052496481int) by (nonlinear_arith);
    lemma_bomb_score_unique(78, 2262);
    assert(pow(2, 79) == 604462909807314587353088int);
    assert(pow12(2397) == 35976292737054838176656449373600726537841int && pow12(2398) == 36156813170078577594719816138485864861696int) by (nonlinear_arith);
    lemma_bomb_score_unique(79, 2397);
}

proof fn lemma_bomb_scores_5()
    requires
        pow(2, 79) == 604462909807314587353088int,
        pow(25, 12) == 59604644775390625int,
    ensures
        pow(2, 95) == 39614081257132168796771975168int,
        pow(25, 12) == 59604644775390625int,
        bomb_score(80) == BOMB_SCORES[80],
        bomb_score(81) == BOMB_SCORES[81],
        bomb_score(82) == BOMB_SCORES[82],
        bomb_score(83) == BOMB_SCORES[83],
        bomb_score(84) == BOMB_SCORES[84],
        bomb_score(85) == BOMB_SCORES[85],
        bomb_score(86) == BOMB_SCORES[86],
        bomb_score(87) == BOMB_SCORES[87],
        bomb_score(88) == BOMB_SCORES[88],
        bomb_score(89) == BOMB_SCORES[89],
        bomb_score(90) == BOMB_SCORES[90],
        bomb_score(91) == BOMB_SCORES[91],
        bomb_score(92) == BOMB_SCORES[92],
        bomb_score(93) == BOMB_SCORES[93],
        bomb_score(94) == BOMB_SCORES[94],
        bomb_score(95) == BOMB_SCORES[95],
{
    assert(pow(2, 80) == 1208925819614629174706176int);
    assert(pow12(2539) == 71771564046564604468201825638865162095121int && pow12(2540) == 72111511618440250457975689216000000000000int) by (nonlinear_arith);
    lemma_bomb_score_unique(80, 2539);
    assert(pow(2, 81) == 2417851639229258349412352int);
    assert(pow12(2690) == 143557987030641165766449098161000000000000int && pow12(2691) == 144199705414732216115456345091495155344881int) by (nonlinear_arith);
    lemma_bomb_score_unique(81, 2690);
    assert(pow(2, 82) == 4835703278458516698824704int);
    assert(pow12(2850) == 287169505347519450195556640625000000000000int && pow12(2851) == 288380976256133688832147450483953937369201int) by (nonlinear_arith);
    lemma_bomb_score_unique(82, 2850);
    assert(pow(2, 83) == 9671406556917033397649408int);
    assert(pow12(3020) == 575550340897290317159369936896000000000000int && pow12(3021) == 577841465479038841076852718633038425342641int) by (nonlinear_arith);
    lemma_bomb_score_unique(83, 3020);
    assert(pow(2, 84) == 19342813113834066795298816int);
    assert(pow12(3200) == 1152921504606846976000000000000000000000000int && pow12(3201) == 1157252398934514977862613193989161635878401int) by (nonlinear_arith);
    lemma_bomb_score_unique(84, 3200);
    assert(pow(2, 85) == 38685626227668133590597632int);
    assert(pow12(3390) == 2303543290888970191892547145521000000000000int && pow12(3391) == 2311710668872307828675908113559189464449281int) by (nonlinear_arith);
    lemma_bomb_score_unique(85, 3390);
    assert(pow(2, 86) == 77371252455336267181195264int);
    assert(pow12(3591) == 4598168283543803428094122665509625413787681int && pow12(3592) == 4613557481240325086591562363253357161742336int) by (nonlinear_arith);
    lemma_bomb_score_unique(86, 3591);
    assert(pow(2, 87) == 154742504910672534362390528int);
    assert(pow12(3805) == 9209921600506173053104665846496758056640625int && pow12(3806) == 9239009366822717270987859150011982737575936int) by (nonlinear_arith);
    lemma_bomb_score_unique(87, 3805);
    assert(pow(2, 88) == 309485009821345068724781056int);
    assert(pow12(4031) == 18405752500588534760457250299373217076437761int && pow12(4032) == 18460619937633629744950562566278785821310976int) by (nonlinear_arith);
    lemma_bomb_score_unique(88, 4031);
    assert(pow(2, 89) == 618970019642690137449562112int);
    assert(pow12(4271) == 36842989059521498745210947862143921313032641int && pow12(4272) == 36946638240052019992058567413645180944777216int) by (nonlinear_arith);
    lemma_bomb_score_unique(89, 4271);
    assert(pow(2, 90) == 1237940039285380274899124224int);
    assert(pow12(4525) == 73692451197094669051049981176853179931640625int && pow12(4526) == 73888116403231273257275537075163351025586176int) by (nonlinear_arith);
    lemma_bomb_score_unique(90, 4525);
    assert(pow(2, 91) == 2475880078570760549798248448int);
    assert(pow12(4794) == 147358895050976617171584816634268575898996736int && pow12(4795) == 147728176834993908014112144494847187744140625int) by (nonlinear_arith);
    lemma_bomb_score_unique(91, 4794);
    assert(pow(2, 92) == 4951760157141521099596496896int);
    assert(pow12(5079) == 294671785040323028449729645790128311536121441int && pow12(5080) == 295368751589131265875868423028736000000000000int) by (nonlinear_arith);
    lemma_bomb_score_unique(92, 5079);
    assert(pow(2, 93) == 9903520314283042199192993792int);
    assert(pow12(5381) == 589326410825174678954006577054608743487034961int && pow12(5382) == 590641993378743157208909189494764156292632576int) by (nonlinear_arith);
    lemma_bomb_score_unique(93, 5381);
    assert(pow(2, 94) == 19807040628566084398385987584int);
    assert(pow12(5701) == 1178724992708465778998176489017330234104408401int && pow12(5702) == 1181208478745123589456475957182275327464247296int) by (nonlinear_arith);
    lemma_bomb_score_unique(94, 5701);
    assert(pow(2, 95) == 39614081257132168796771975168int);
    assert(pow12(6040) == 2357454196315301139084779261526016000000000000int && pow12(6041) == 2362142147447527311799676432431642695029938081int) by (nonlinear_arith);
    lemma_bomb_score_unique(95, 6040);
}

proof fn lemma_bomb_scores_6()
    requires
        pow(2, 95) == 39614081257132168796771975168int,
        pow(25, 12) == 59604644775390625int,
    ensures
        pow(2, 111) == 2596148429267413814265248164610048int,
        pow(25, 12) == 59604644775390625int,
        bomb_score(96) == BOMB_SCORES[96],
        bomb_score(97) == BOMB_SCORES[97],
        bomb_score(98) == BOMB_SCORES[98],
        bomb_score(99) == BOMB_SCORES[99],
        bomb_score(100) == BOMB_SCORES[100],
        bomb_score(101) == BOMB_SCORES[101],
        bomb_score(102) == BOMB_SCORES[102],
        bomb_score(103) == BOMB_SCORES[103],
        bomb_score(104) == BOMB_SCORES[104],
        bomb_score(105) == BOMB_SCORES[105],
        bomb_score(106) == BOMB_SCORES[106],
        bomb_score(107) == BOMB_SCORES[107],
        bomb_score(108) == BOMB_SCORES[108],
        bomb_score(109) == BOMB_SCORES[109],
        bomb_score(110) == BOMB_SCORES[110],
        bomb_score(111) == BOMB_SCORES[111],
{
    assert(pow(2, 96) == 79228162514264337593543950336int);
    assert(pow12(6400) == 4722366482869645213696000000000000000000000000int && pow12(6401) == 4731228533271517525271264808006639946383436801int) by (nonlinear_arith);
    lemma_bomb_score_unique(96, 6400);
    assert(pow(2, 97) == 158456325028528675187087900672int);
    assert(pow12(6780) == 9435313319481221905991873108054016000000000000int && pow12(6781) == 9452026542665285591364688892173664912068235761int) by (nonlinear_arith);
    lemma_bomb_score_unique(97, 6780);
    assert(pow(2, 98) == 316912650057057350374175801344int);
    assert(pow12(7183) == 18865590233758549913072345767625442469164298561int && pow12(7184) == 18897131443160371554679039439885750934496608256int) by (nonlinear_arith);
    lemma_bomb_score_unique(98, 7183);
    assert(pow(2, 99) == 633825300114114700748351602688int);
    assert(pow12(7610) == 37723838875673284825516711307250721000000000000int && pow12(7611) == 37783367572273575424705105827985507693256259921int) by (nonlinear_arith);
    lemma_bomb_score_unique(99, 7610);
    assert(pow(2, 100) == 1267650600228229401496703205376int);
    assert(pow12(8063) == 75502254103757066767120271267446856816058631681int && pow12(8064) == 75614699264547347435317504271477906724089757696int) by (nonlinear_arith);
    lemma_bomb_score_unique(100, 8063);
    assert(pow(2, 101) == 2535301200456458802993406410752int);
    assert(pow12(8542) == 150908883187800058860384042443341501698181697536int && pow12(8543) == 151121020047441093433921205080638899363335190401int) by (nonlinear_arith);
    lemma_bomb_score_unique(101, 8542);
    assert(pow(2, 102) == 5070602400912917605986812821504int);
    assert(pow12(9050) == 301844280103299764433100722900390625000000000000int && pow12(9051) == 302244758939491343208824011075412432351376923601int) by (nonlinear_arith);
    lemma_bomb_score_unique(102, 9050);
    assert(pow(2, 103) == 10141204801825835211973625643008int);
    assert(pow12(9589) == 604337889434843786175163892499937065320312549521int && pow12(9590) == 605094612316135047225803343850894081000000000000int) by (nonlinear_arith);
    lemma_bomb_score_unique(103, 9589);
    assert(pow(2, 104) == 20282409603651670423947251286016int);
    assert(pow12(10159) == 1208402246241221055587341464837379354430999647681int && pow12(10160) == 1209830406509081665027557060725702656000000000000int) by (nonlinear_arith);
    lemma_bomb_score_unique(104, 10159);
    assert(pow(2, 105) == 40564819207303340847894502572032int);
    assert(pow12(10763) == 2416573914988988442985429755940381966760376270481int && pow12(10764) == 2419269604879331971927692040170553984174623031296int) by (nonlinear_arith);
    lemma_bomb_score_unique(105, 10763);
    assert(pow(2, 106) == 81129638414606681695789005144064int);
    assert(pow12(11403) == 4833141296324253819055012924070370238502204881041int && pow12(11404) == 4838229928940026222413725520618599741293556924416int) by (nonlinear_arith);
    lemma_bomb_score_unique(106, 11403);
    assert(pow(2, 107) == 162259276829213363391578010288128int);
    assert(pow12(12081) == 9665728941106842662986267576028217527574748727361int && pow12(12082) == 9675334235945071869131474667240008478842626379776int) by (nonlinear_arith);
    lemma_bomb_score_unique(107, 12081);
    assert(pow(2, 108) == 324518553658426726783156020576256int);
    assert(pow12(12800) == 19342813113834066795298816000000000000000000000000int && pow12(12801) == 19360954795062481545622250037529786387016253593601int) by (nonlinear_arith);
    lemma_bomb_score_unique(108, 12800);
    assert(pow(2, 109) == 649037107316853453566312041152512int);
    assert(pow12(13561) == 38681258155386035165617045202433154492039577740321int && pow12(13562) == 38715500718757009782229765702343331479831493677056int) by (nonlinear_arith);
    lemma_bomb_score_unique(109, 13561);
    assert(pow(2, 110) == 1298074214633706907132624082305024int);
    assert(pow12(14367) == 77338029265425931157153138155189942705115065247361int && pow12(14368) == 77402650391184881887965345545772035827698107416576int) by (nonlinear_arith);
    lemma_bomb_score_unique(110, 14367);
    assert(pow(2, 111) == 2596148429267413814265248164610048int);
    assert(pow12(15221) == 154638714752362704675478134115489880347171869137041int && pow12(15222) == 154760673576032564939592113471428639511577640636416int) by (nonlinear_arith);
    lemma_bomb_score_unique(111, 15221);
}

proof fn lemma_bomb_scores_7()
    requires
        pow(2, 111) == 2596148429267413814265248164610048int,
        pow(25, 12) == 59604644775390625int,
    ensures
        pow(2, 127) == 170141183460469231731687303715884105728int,
        pow(25, 12) == 59604644775390625int,
        bomb_score(112) == BOMB_SCORES[112],
        bomb_score(113) == BOMB_SCORES[113],
        bomb_score(114) == BOMB_SCORES[114],
        bomb_score(115) == BOMB_SCORES[115],
        bomb_score(116) == BOMB_SCORES[116],
        bomb_score(117) == BOMB_SCORES[117],
        bomb_score(118) == BOMB_SCORES[118],
        bomb_score(119) == BOMB_SCORES[119],
        bomb_score(120) == BOMB_SCORES[120],
        bomb_score(121) == BOMB_SCORES[121],
        bomb_score(122) == BOMB_SCORES[122],
        bomb_score(123) == BOMB_SCORES[123],
        bomb_score(124) == BOMB_SCORES[124],
        bomb_score(125) == BOMB_SCORES[125],
        bomb_score(126) == BOMB_SCORES[126],
        bomb_score(127) == BOMB_SCORES[127],
{
    assert(pow(2, 112) == 5192296858534827628530496329220096int);
    assert(pow12(16126) == 309257232808988945478124631111462325518576155365376int && pow12(16127) == 309487441960292873180406129309445796812821505182721int) by (nonlinear_arith);
    lemma_bomb_score_unique(112, 16126);
    assert(pow(2, 113) == 10384593717069655257060992658440192int);
    assert(pow12(17085) == 618557101965692035385594120068654667406289306640625int && pow12(17086) == 618991698114318718705341256010296931792220939882496int) by (nonlinear_arith);
    lemma_bomb_score_unique(113, 17085);
    assert(pow(2, 114) == 20769187434139310514121985316880384int);
    assert(pow12(18101) == 1237174102747246723232438291761764672478974142477201int && pow12(18102) == 1237994532616156541783343149364889322911239879069696int) by (nonlinear_arith);
    lemma_bomb_score_unique(114, 18101);
    assert(pow(2, 115) == 41538374868278621028243970633760768int);
    assert(pow12(19178) == 2475367995125120148173471303679742219552000202838016int && pow12(19179) == 2476917319155831866684996563548467431243795521908241int) by (nonlinear_arith);
    lemma_bomb_score_unique(115, 19178);
    assert(pow(2, 116) == 83076749736557242056487941267521536int);
    assert(pow12(20318) == 4949615600604041443685750639973905835749374556901376int && pow12(20319) == 4952539681120585173327035709086986881015067415154561int) by (nonlinear_arith);
    lemma_bomb_score_unique(116, 20318);
    assert(pow(2, 117) == 166153499473114484112975882535043072int);
    assert(pow12(21526) == 9898286755794896662468320280331804535850501203890176int && pow12(21527) == 9903806118170962426765943933664038474175090638433121int) by (nonlinear_arith);
    lemma_bomb_score_unique(117, 21526);
    assert(pow(2, 118) == 332306998946228968225951765070086144int);
    assert(pow12(22807) == 19806965756149831034047217633771031223268375568732001int && pow12(22808) == 19817389788938347407006619732453784540338409162407936int) by (nonlinear_arith);
    lemma_bomb_score_unique(118, 22807);
    assert(pow(2, 119) == 664613997892457936451903530140172288int);
    assert(pow12(24163) == 39610492908928230398685535338182451129324255647860081int && pow12(24164) == 39630169030431014375962520237015074729339397651562496int) by (nonlinear_arith);
    lemma_bomb_score_unique(119, 24163);
    assert(pow(2, 120) == 1329227995784915872903807060280344576int);
    assert(pow12(25600) == 79228162514264337593543950336000000000000000000000000int && pow12(25601) == 79265308695392320401665185472165937073902102774067201int) by (nonlinear_arith);
    lemma_bomb_score_unique(120, 25600);
    assert(pow(2, 121) == 2658455991569831745807614120560689152int);
    assert(pow12(27122) == 158438433404461200038367417149166200799394110424354816int && pow12(27123) == 158508547953538244749338183699195882563972951499020721int) by (nonlinear_arith);
    lemma_bomb_score_unique(121, 27122);
    assert(pow(2, 122) == 5316911983139663491615228241121378304int);
    assert(pow12(28735) == 316908886605527843715867551717840561275088730712890625int && pow12(28736) == 317041256002293276213106055355482258750251447978295296int) by (nonlinear_arith);
    lemma_bomb_score_unique(122, 28735);
    assert(pow(2, 123) == 10633823966279326983230456482242756608int);
    assert(pow12(30443) == 633649902171428729487758510360505304134767027431530001int && pow12(30444) == 633899718967429385992569296778971707439422016046759936int) by (nonlinear_arith);
    lemma_bomb_score_unique(123, 30443);
    assert(pow(2, 124) == 21267647932558653966460912964485513216int);
    assert(pow12(32253) == 1267189013529515230935728902435737344680886761899795441int && pow12(32254) == 1267660562269359608546943505651489983745316885228425216int) by (nonlinear_arith);
    lemma_bomb_score_unique(124, 32253);
    assert(pow(2, 125) == 42535295865117307932921825928971026432int);
    assert(pow12(34171) == 2534499799305222455350398278859893754973059646137487441int && pow12(34172) == 2535389995476249471817077784618176232620936969758703616int) by (nonlinear_arith);
    lemma_bomb_score_unique(125, 34171);
    assert(pow(2, 126) == 85070591730234615865843651857942052864int);
    assert(pow12(36203) == 5069145109960267150090400270474960768119728301556148241int && pow12(36204) == 5070825605595777195144573539798586666644438544669474816int) by (nonlinear_arith);
    lemma_bomb_score_unique(126, 36203);
    assert(pow(2, 127) == 170141183460469231731687303715884105728int);
    assert(pow12(38356) == 10139107308032492126918538459872224131284992830824513536int && pow12(38357) == 10142279868669530315229219924575798430426175247558230801int) by (nonlinear_arith);
    lemma_bomb_score_unique(127, 38356);
}

proof fn lemma_bomb_scores_8()
    requires
        pow(2, 127) == 170141183460469231731687303715884105728int,
        pow(25, 12) == 59604644775390625int,
    ensures
        pow(2, 143) == 11150372599265311570767859136324180752990208int,
        pow(25, 12) == 59604644775390625int,
        bomb_score(128) == BOMB_SCORES[128],
        bomb_score(129) == BOMB_SCORES[129],
        bomb_score(130) == BOMB_SCORES[130],
        bomb_score(131) == BOMB_SCORES[131],
        bomb_score(132) == BOMB_SCORES[132],
        bomb_score(133) == BOMB_SCORES[133],
        bomb_score(134) == BOMB_SCORES[134],
        bomb_score(135) == BOMB_SCORES[135],
        bomb_score(136) == BOMB_SCORES[136],
        bomb_score(137) == BOMB_SCORES[137],
        bomb_score(138) == BOMB_SCORES[138],
        bomb_score(139) == BOMB_SCORES[139],
        bomb_score(140) == BOMB_SCORES[140],
        bomb_score(141) == BOMB_SCORES[141],
        bomb_score(142) == BOMB_SCORES[142],
        bomb_score(143) == BOMB_SCORES[143],
{
    assert(pow(2, 128) == 340282366920938463463374607431768211456int);
    assert(pow12(40637) == 20279613206458396945733642879117055481012511826117488881int && pow12(40638) == 20285602533869916869947538264420298264637716132473081856int) by (nonlinear_arith);
    lemma_bomb_score_unique(128, 40637);
    assert(pow(2, 129) == 680564733841876926926749214863536422912int);
    assert(pow12(43053) == 40554684761845718635130810132470683351626629549256206641int && pow12(43054) == 40565989860028262100033306352287901590221171255022063616int) by (nonlinear_arith);
    lemma_bomb_score_unique(129, 43053);
    assert(pow(2, 130) == 1361129467683753853853498429727072845824int);
    assert(pow12(45614) == 81129331737189707915457403427926143890507266329526276096int && pow12(45615) == 81150677582268360607659637356585828435121188652587890625int) by (nonlinear_arith);
    lemma_bomb_score_unique(130, 45614);
    assert(pow(2, 131) == 2722258935367507707706996859454145691648int);
    assert(pow12(48326) == 162244578954970031713015952745195319825712151133634891776int && pow12(48327) == 162284871065720627140266715173665864545647843938128389921int) by (nonlinear_arith);
    lemma_bomb_score_unique(131, 48326);
    assert(pow(2, 132) == 5444517870735015415413993718908291383296int);
    assert(pow12(51200) == 324518553658426726783156020576256000000000000000000000000int && pow12(51201) == 324594620865376630567830671855314748269133991945175654401int) by (nonlinear_arith);
    lemma_bomb_score_unique(132, 51200);
    assert(pow(2, 133) == 10889035741470030830827987437816582766592int);
    assert(pow12(54244) == 648963823224673075357152940642984758474318276298157326336int && pow12(54245) == 649107403261863517433974317585431567893006788281494140625int) by (nonlinear_arith);
    lemma_bomb_score_unique(133, 54244);
    assert(pow(2, 134) == 21778071482940061661655974875633165533184int);
    assert(pow12(57470) == 1298058799536242047860193491836274938982763441000000000000int && pow12(57471) == 1298329866117143795922369116847225301232018134681895959041int) by (nonlinear_arith);
    lemma_bomb_score_unique(134, 57470);
    assert(pow(2, 135) == 43556142965880123323311949751266331066368int);
    assert(pow12(60887) == 2595941577876664076432680608580620346111738401338202422881int && pow12(60888) == 2596453248890590765025563839606668113671872577727528697856int) by (nonlinear_arith);
    lemma_bomb_score_unique(135, 60887);
    assert(pow(2, 136) == 87112285931760246646623899502532662132736int);
    assert(pow12(64507) == 5191371848895807147862960249576807989030370550241788869201int && pow12(64508) == 5192337663055296956608280599148502973420817961895629684736int) by (nonlinear_arith);
    lemma_bomb_score_unique(136, 64507);
    assert(pow(2, 137) == 174224571863520493293247799005065324265472int);
    assert(pow12(68343) == 10383134152994141772668948875925674072079665352150875493601int && pow12(68344) == 10384957421470717836562750605796049848815357828131650011136int) by (nonlinear_arith);
    lemma_bomb_score_unique(137, 68343);
    assert(pow(2, 138) == 348449143727040986586495598010130648530944int);
    assert(pow12(72407) == 20766659764032358731601394792193478001654918537787359445601int && pow12(72408) == 20770101680520303391312173219015010986575620278966168846336int) by (nonlinear_arith);
    lemma_bomb_score_unique(138, 72407);
    assert(pow(2, 139) == 696898287454081973172991196020261297061888int);
    assert(pow12(76713) == 41536280472049143864544517641359840060197477154995235037281int && pow12(76714) == 41542778342070396171178884811062470371025613813998513360896int) by (nonlinear_arith);
    lemma_bomb_score_unique(139, 76713);
    assert(pow(2, 140) == 1393796574908163946345982392040522594123776int);
    assert(pow12(81274) == 83065295693653593889725001232863459250227248439777234456576int && pow12(81275) == 83077561006124298688132716029330282116770803928375244140625int) by (nonlinear_arith);
    lemma_bomb_score_unique(140, 81274);
    assert(pow(2, 141) == 2787593149816327892691964784081045188247552int);
    assert(pow12(86107) == 166135140146732945212995627585572446902519795969078265294801int && pow12(86108) == 166158294466675761561736422818971244913545917460570372571136int) by (nonlinear_arith);
    lemma_bomb_score_unique(141, 86107);
    assert(pow(2, 142) == 5575186299632655785383929568162090376495104int);
    assert(pow12(91228) == 332305742795529043621713524440785485375517762885739626889216int && pow12(91229) == 332349456450689078473016580357733489445981665639997863766641int) by (nonlinear_arith);
    lemma_bomb_score_unique(142, 91228);
    assert(pow(2, 143) == 11150372599265311570767859136324180752990208int);
    assert(pow12(96652) == 664553795399557249896513342444320030006116971043368516714496int && pow12(96653) == 664636308946707133931753602937332702610459111736114930437041int) by (nonlinear_arith);
    lemma_bomb_score_unique(143, 96652);
}

proof fn lemma_bomb_scores_9()
    requires
        pow(2, 143) == 11150372599265311570767859136324180752990208int,
        pow(25, 12) == 59604644775390625int,
    ensures
        pow(2, 159) == 730750818665451459101842416358141509827966271488int,
        pow(25, 12) == 59604644775390625int,
        bomb_score(144) == BOMB_SCORES[144],
        bomb_score(145) == BOMB_SCORES[145],
        bomb_score(146) == BOMB_SCORES[146],
        bomb_score(147) == BOMB_SCORES[147],
        bomb_score(148) == BOMB_SCORES[148],
        bomb_score(149) == BOMB_SCORES[149],
        bomb_score(150) == BOMB_SCORES[150],
        bomb_score(151) == BOMB_SCORES[151],
        bomb_score(152) == BOMB_SCORES[152],
        bomb_score(153) == BOMB_SCORES[153],
        bomb_score(154) == BOMB_SCORES[154],
        bomb_score(155) == BOMB_SCORES[155],
        bomb_score(156) == BOMB_SCORES[156],
        bomb_score(157) == BOMB_SCORES[157],
        bomb_score(158) == BOMB_SCORES[158],
        bomb_score(159) == BOMB_SCORES[159],
{
    assert(pow(2, 144) == 22300745198530623141535718272648361505980416int);
    assert(pow12(102400) == 1329227995784915872903807060280344576000000000000000000000000int && pow12(102401) == 1329383773057438232031896119723023762900097242004885341388801int) by (nonlinear_arith);
    lemma_bomb_score_unique(144, 102400);
    assert(pow(2, 145) == 44601490397061246283071436545296723011960832int);
    assert(pow12(108489) == 2658449856937058108103372105627170672822563027899100361354721int && pow12(108490) == 2658743923760592967409558804829927702089755804801000000000000int) by (nonlinear_arith);
    lemma_bomb_score_unique(145, 108489);
    assert(pow(2, 146) == 89202980794122492566142873090593446023921664int);
    assert(pow12(114940) == 5316848842900447428035352542561382150073399054336000000000000int && pow12(114941) == 5317403960694123413192806349739978749785966240544379513296881int) by (nonlinear_arith);
    lemma_bomb_score_unique(146, 114940);
    assert(pow(2, 147) == 178405961588244985132285746181186892047843328int);
    assert(pow12(121774) == 10632976702982816057068259772746220937673680491881277124120576int && pow12(121775) == 10634024557890556994265525252992264622413148939609527587890625int) by (nonlinear_arith);
    lemma_bomb_score_unique(147, 121774);
    assert(pow(2, 148) == 356811923176489970264571492362373784095686656int);
    assert(pow12(129015) == 21265836996152870193961279874284688923741180372315097900390625int && pow12(129016) == 21267815067874496334267517334112268179131670371924499188678656int) by (nonlinear_arith);
    lemma_bomb_score_unique(148, 129015);
    assert(pow(2, 149) == 713623846352979940529142984724747568191373312int);
    assert(pow12(136687) == 42533051394253488475928170504238541271394812372925637961087681int && pow12(136688) == 42536785598344060258561026481340620180747705664027238445613056int) by (nonlinear_arith);
    lemma_bomb_score_unique(149, 136687);
    assert(pow(2, 150) == 1427247692705959881058285969449495136382746624int);
    assert(pow12(144815) == 85067287170724711744047189956106518700987114309158027587890625int && pow12(144816) == 85074336483411162690814661505085485001013740662645427594592256int) by (nonlinear_arith);
    lemma_bomb_score_unique(150, 144815);
    assert(pow(2, 151) == 2854495385411919762116571938898990272765493248int);
    assert(pow12(153426) == 170132604813513293269174344259009904886568866426860482712702976int && pow12(153427) == 170145911974269050092452418800779604784002983151608922344777521int) by (nonlinear_arith);
    lemma_bomb_score_unique(151, 153426);
    assert(pow(2, 152) == 5708990770823839524233143877797980545530986496int);
    assert(pow12(162549) == 340260569671207692127380586156501198898162370540618075074464401int && pow12(162550) == 340285689881085127426591604856136835550293212890625000000000000int) by (nonlinear_arith);
    lemma_bomb_score_unique(152, 162549);
    assert(pow(2, 153) == 11417981541647679048466287755595961091061972992int);
    assert(pow12(172215) == 680536952573815369130396443387769980693281168411686035400390625int && pow12(172216) == 680584374135503919356872387866506219165884077918496246051373056int) by (nonlinear_arith);
    lemma_bomb_score_unique(153, 172215);
    assert(pow(2, 154) == 22835963083295358096932575511191922182123945984int);
    assert(pow12(182456) == 1361124322490486962674538596109457348098120756779989511738228736int && pow12(182457) == 1361213845357588115550634850462802384947635372127801649446746401int) by (nonlinear_arith);
    lemma_bomb_score_unique(154, 182456);
    assert(pow(2, 155) == 45671926166590716193865151022383844364247891968int);
    assert(pow12(193305) == 2722181328893034847351990515708434440658539669786936894775390625int && pow12(193306) == 2722350321445712420584462757631314749892440521671126755070119936int) by (nonlinear_arith);
    lemma_bomb_score_unique(155, 193305);
    assert(pow(2, 156) == 91343852333181432387730302044767688728495783936int);
    assert(pow12(204800) == 5444517870735015415413993718908291383296000000000000000000000000int && pow12(204801) == 5444836894021433054903944091961693973021859286408749530483097601int) by (nonlinear_arith);
    lemma_bomb_score_unique(156, 204800);
    assert(pow(2, 157) == 182687704666362864775460604089535377456991567872int);
    assert(pow12(216978) == 10889010614014190010791412144648891075881218162274715080108937216int && pow12(216979) == 10889612847602940175147076667497481508445684145181757210241902641int) by (nonlinear_arith);
    lemma_bomb_score_unique(157, 216978);
    assert(pow(2, 158) == 365375409332725729550921208179070754913983135744int);
    assert(pow12(229880) == 21777812860520232665232804014331421286700642526560256000000000000int && pow12(229881) == 21778949714561317300337120169420793979777543549875450123105148961int) by (nonlinear_arith);
    lemma_bomb_score_unique(158, 229880);
    assert(pow(2, 159) == 730750818665451459101842416358141509827966271488int);
    assert(pow12(243549) == 43554818533805986254584284945110460219932787121824456576934092401int && pow12(243550) == 43556964589119721448511591436256315893404258056640625000000000000int) by (nonlinear_arith);
    lemma_bomb_score_unique(159, 243549);
}

proof fn lemma_bomb_scores_10()
    requires
        pow(2, 159) == 730750818665451459101842416358141509827966271488int,
        pow(25, 12) == 59604644775390625int,
    ensures
        pow(2, 175) == 47890485652059026823698344598447161988085597568237568int,
        pow(25, 12) == 59604644775390625int,
        bomb_score(160) == BOMB_SCORES[160],
        bomb_score(161) == BOMB_SCORES[161],
        bomb_score(162) == BOMB_SCORES[162],
        bomb_score(163) == BOMB_SCORES[163],
        bomb_score(164) == BOMB_SCORES[164],
        bomb_score(165) == BOMB_SCORES[165],
        bomb_score(166) == BOMB_SCORES[166],
        bomb_score(167) == BOMB_SCORES[167],
        bomb_score(168) == BOMB_SCORES[168],
        bomb_score(169) == BOMB_SCORES[169],
        bomb_score(170) == BOMB_SCORES[170],
        bomb_score(171) == BOMB_SCORES[171],
        bomb_score(172) == BOMB_SCORES[172],
        bomb_score(173) == BOMB_SCORES[173],
        bomb_score(174) == BOMB_SCORES[174],
        bomb_score(175) == BOMB_SCORES[175],
{
    assert(pow(2, 160) == 1461501637330902918203684832716283019655932542976int);
    assert(pow12(258031) == 87108919340777957440487074020924106341950920625313637985569325761int && pow12(258032) == 87112970518013936985159751000523850461723321843402748676827774976int) by (nonlinear_arith);
    lemma_bomb_score_unique(160, 258031);
    assert(pow(2, 161) == 2923003274661805836407369665432566039311865085952int);
    assert(pow12(273375) == 174223026006977594640960742642594371946775936521589756011962890625int && pow12(273376) == 174230673810817270819065964467571180260342602399855568673231077376int) by (nonlinear_arith);
    lemma_bomb_score_unique(161, 273375);
    assert(pow(2, 162) == 5846006549323611672814739330865132078623730171904int);
    assert(pow12(289630) == 348435608251288419303617290060212300599243220210311281000000000000int && pow12(289631) == 348450044969516405786960636130615872755316161501083480421123800961int) by (nonlinear_arith);
    lemma_bomb_score_unique(162, 289630);
    assert(pow(2, 163) == 11692013098647223345629478661730264157247460343808int);
    assert(pow12(306853) == 696890401892897244280008579639161996285718077447056516827809829841int && pow12(306854) == 696917655446606029178685107407993261195276218988990145924208726016int) by (nonlinear_arith);
    lemma_bomb_score_unique(163, 306853);
    assert(pow(2, 164) == 23384026197294446691258957323460528314494920687616int);
    assert(pow12(325099) == 1393758738692732992529802128644424593053119564665317693209816758801int && pow12(325100) == 1393810185752924681939319213490736478414001000000000000000000000000int) by (nonlinear_arith);
    lemma_bomb_score_unique(164, 325099);
    assert(pow(2, 165) == 46768052394588893382517914646921056628989841375232int);
    assert(pow12(344431) == 2787576475549848519395198106886038458614027276643890081916711866561int && pow12(344432) == 2787673596459024053685749300701209473703461183154160623826424037376int) by (nonlinear_arith);
    lemma_bomb_score_unique(165, 344431);
    assert(pow(2, 166) == 93536104789177786765035829293842113257979682750464int);
    assert(pow12(364912) == 5575165224921034599114910089664337297809902619770837040079784902656int && pow12(364913) == 5575348564989498891254613742569105456224506155945455709581722678081int) by (nonlinear_arith);
    lemma_bomb_score_unique(166, 364912);
    assert(pow(2, 167) == 187072209578355573530071658587684226515959365500928int);
    assert(pow12(386610) == 11150054723145870734753753152341747468937378487447293521000000000000int && pow12(386611) == 11150400814970117691804792438856729575569446370168489485812593887921int) by (nonlinear_arith);
    lemma_bomb_score_unique(167, 386610);
    assert(pow(2, 168) == 374144419156711147060143317175368453031918731001856int);
    assert(pow12(409600) == 22300745198530623141535718272648361505980416000000000000000000000000int && pow12(409601) == 22301398549448087510039998503340419955628669041439575827346887475201int) by (nonlinear_arith);
    lemma_bomb_score_unique(168, 409600);
    assert(pow(2, 169) == 748288838313422294120286634350736906063837462003712int);
    assert(pow12(433956) == 44601387475002122284201624144481857846809469592677232968126206836736int && pow12(433957) == 44602620833760013234453570733711019418882889391690568361135908520401int) by (nonlinear_arith);
    lemma_bomb_score_unique(169, 433956);
    assert(pow(2, 170) == 1496577676626844588240573268701473812127674924007424int);
    assert(pow12(459760) == 89201921476690872996793565242701501590325831788790808576000000000000int && pow12(459761) == 89204249725914447630439132575080671061872800166738119243442369638721int) by (nonlinear_arith);
    lemma_bomb_score_unique(170, 459760);
    assert(pow(2, 171) == 2993155353253689176481146537402947624255349848014848int);
    assert(pow12(487099) == 178404931786125044449612239549102949071286693824495552709320657214801int && pow12(487100) == 178409326957034379053103478522905869899383841000000000000000000000000int) by (nonlinear_arith);
    lemma_bomb_score_unique(171, 487099);
    assert(pow(2, 172) == 5986310706507378352962293074805895248510699696029696int);
    assert(pow12(516063) == 356806430342381595017606284780218503483950254181987739872550563383681int && pow12(516064) == 356814727241785085891214340098145691491218726270577658580286566301696int) by (nonlinear_arith);
    lemma_bomb_score_unique(172, 516063);
    assert(pow(2, 173) == 11972621413014756705924586149611790497021399392059392int);
    assert(pow12(546750) == 713617514524580227649375201864066547493994235992431640625000000000000int && pow12(546751) == 713633177069286125176846478790899641056026358641419729717048659936001int) by (nonlinear_arith);
    lemma_bomb_score_unique(173, 546750);
    assert(pow(2, 174) == 23945242826029513411849172299223580994042798784118784int);
    assert(pow12(579261) == 1427221817515479570350089223716664665437894346982959887926789793812721int && pow12(579262) == 1427251384195139198103390765591002614805774997508437935804923088736256int) by (nonlinear_arith);
    lemma_bomb_score_unique(174, 579261);
    assert(pow(2, 175) == 47890485652059026823698344598447161988085597568237568int);
    assert(pow12(613706) == 2854463086153307112570915142202007536786301245223143492926709063028736int && pow12(613707) == 2854518900931090014654293581038764182461613824091695687516728984896401int) by (nonlinear_arith);
    lemma_bomb_score_unique(175, 613706);
}

proof fn lemma_bomb_scores_11()
    requires
        pow(2, 175) == 47890485652059026823698344598447161988085597568237568int,
        pow(25, 12) == 59604644775390625int,
    ensures
        pow(2, 191) == 3138550867693340381917894711603833208051177722232017256448int,
        pow(25, 12) == 59604644775390625int,
        bomb_score(176) == BOMB_SCORES[176],
        bomb_score(177) == BOMB_SCORES[177],
        bomb_score(178) == BOMB_SCORES[178],
        bomb_score(179) == BOMB_SCORES[179],
        bomb_score(180) == BOMB_SCORES[180],
        bomb_score(181) == BOMB_SCORES[181],
        bomb_score(182) == BOMB_SCORES[182],
        bomb_score(183) == BOMB_SCORES[183],
        bomb_score(184) == BOMB_SCORES[184],
        bomb_score(185) == BOMB_SCORES[185],
        bomb_score(186) == BOMB_SCORES[186],
        bomb_score(187) == BOMB_SCORES[187],
        bomb_score(188) == BOMB_SCORES[188],
        bomb_score(189) == BOMB_SCORES[189],
        bomb_score(190) == BOMB_SCORES[190],
        bomb_score(191) == BOMB_SCORES[191],
{
    assert(pow(2, 176) == 95780971304118053647396689196894323976171195136475136int);
    assert(pow12(650199) == 5708941156373441803117968396468518932863429002559061134920092394837601int && pow12(650200) == 5709046520843979497223451498458056615583748096000000000000000000000000int) by (nonlinear_arith);
    lemma_bomb_score_unique(176, 650199);
    assert(pow(2, 177) == 191561942608236107294793378393788647952342390272950272int);
    assert(pow12(688862) == 11417913243852179535442731445805213526483055725133373775530851805433856int && pow12(688863) == 11418112145886090495618389138808380480655369428387848973176942346986881int) by (nonlinear_arith);
    lemma_bomb_score_unique(177, 688862);
    assert(pow(2, 178) == 383123885216472214589586756787577295904684780545900544int);
    assert(pow12(729824) == 22835876761276557717974671727265125571829361130581348516166798961278976int && pow12(729825) == 22836252238907131878326064830918543697649808842915296614170074462890625int) by (nonlinear_arith);
    lemma_bomb_score_unique(178, 729824);
    assert(pow(2, 179) == 766247770432944429179173513575154591809369561091801088int);
    assert(pow12(773221) == 45671332937019805508491390448533858194105513339396021329505141826553041int && pow12(773222) == 45672041738117602065632429829557164341532452332210132933888384564924416int) by (nonlinear_arith);
    lemma_bomb_score_unique(179, 773221);
    assert(pow(2, 180) == 1532495540865888858358347027150309183618739122183602176int);
    assert(pow12(819200) == 91343852333181432387730302044767688728495783936000000000000000000000000int && pow12(819201) == 91345190386876835265701851832111699374638283319156515207016339220070401int) by (nonlinear_arith);
    lemma_bomb_score_unique(180, 819200);
    assert(pow(2, 181) == 3064991081731777716716694054300618367237478244367204352int);
    assert(pow12(867912) == 182687283097608692876089852495797689740531587451605946237444943203270656int && pow12(867913) == 182689809000338003721217024171155044689341778824831756737910747675610081int) by (nonlinear_arith);
    lemma_bomb_score_unique(181, 867912);
    assert(pow(2, 182) == 6129982163463555433433388108601236734474956488734408704int);
    assert(pow12(919520) == 365371070368525815794866443234105350513974607006887151927296000000000000int && pow12(919521) == 365375838594414978516320293952374969846276531893039029930125888374400641int) by (nonlinear_arith);
    lemma_bomb_score_unique(182, 919520);
    assert(pow(2, 183) == 12259964326927110866866776217202473468949912977468817408int);
    assert(pow12(974198) == 730746600595968182065611733193125679395990297905133783897377411951824896int && pow12(974199) == 730755601855172129450016579716018205818765158211839236143058722960549601int) by (nonlinear_arith);
    lemma_bomb_score_unique(183, 974198);
    assert(pow(2, 184) == 24519928653854221733733552434404946937899825954937634816int);
    assert(pow12(1032127) == 1461496130641826099538498618718740554147180267995143827210448610822398721int && pow12(1032128) == 1461513122782351711810413937042004752348031902804286089544853775571746816int) by (nonlinear_arith);
    lemma_bomb_score_unique(184, 1032127);
    assert(pow(2, 185) == 49039857307708443467467104868809893875799651909875269632int);
    assert(pow12(1093500) == 2922977339492680612451840826835216578535400390625000000000000000000000000int && pow12(1093501) == 2923009416222900620512234330761508825537928908844522033170897939001622001int) by (nonlinear_arith);
    lemma_bomb_score_unique(185, 1093500);
    assert(pow(2, 186) == 98079714615416886934934209737619787751599303819750539264int);
    assert(pow12(1158523) == 5845961116815878555959600789856113956662908151953903480838787158801674321int && pow12(1158524) == 5846021669663290155431488575860746710244454389794561785056964971463704576int) by (nonlinear_arith);
    lemma_bomb_score_unique(186, 1158523);
    assert(pow(2, 187) == 196159429230833773869868419475239575503198607639501078528int);
    assert(pow12(1227413) == 11691995109036631695761221400363067793013003264549736384215530711703128081int && pow12(1227414) == 11692109418213744700023986507934778091362770223479585536068521922135658496int) by (nonlinear_arith);
    lemma_bomb_score_unique(187, 1227413);
    assert(pow(2, 188) == 392318858461667547739736838950479151006397215279002157056int);
    assert(pow12(1300398) == 23383822976505617625571198551935053549008605194481914408632698449254813696int && pow12(1300399) == 23384038762028616327873544737608040581793579208262523864369556906554955201int) by (nonlinear_arith);
    lemma_bomb_score_unique(188, 1300398);
    assert(pow(2, 189) == 784637716923335095479473677900958302012794430558004314112int);
    assert(pow12(1377724) == 46767772646818527377173428002018154604474596250146298984574368995057074176int && pow12(1377725) == 46768179996557794360193212038800943735056418108082036213934421539306640625int) by (nonlinear_arith);
    lemma_bomb_score_unique(189, 1377724);
    assert(pow(2, 190) == 1569275433846670190958947355801916604025588861116008628224int);
    assert(pow12(1459648) == 93535751214188780412824255394877954342213063190861203522219208545398685696int && pow12(1459649) == 93536520189478664057209745426333313510633038461203590778839935922164819201int) by (nonlinear_arith);
    lemma_bomb_score_unique(190, 1459648);
    assert(pow(2, 191) == 3138550867693340381917894711603833208051177722232017256448int);
    assert(pow12(1546443) == 187071231329518636807080836405161005912488474410943723864993065289816474001int && pow12(1546444) == 187072682959329698060830432581866145142916924752732704497206823177930407936int) by (nonlinear_arith);
    lemma_bomb_score_unique(191, 1546443);
}

proof fn lemma_bomb_scores_12()
    requires
        pow(2, 191) == 3138550867693340381917894711603833208051177722232017256448int,
        pow(25, 12) == 59604644775390625int,
    ensures
        pow(2, 207) == 205688069665150755269371147819668813122841983204197482918576128int,
        pow(25, 12) == 59604644775390625int,
        bomb_score(192) == BOMB_SCORES[192],
        bomb_score(193) == BOMB_SCORES[193],
        bomb_score(194) == BOMB_SCORES[194],
        bomb_score(195) == BOMB_SCORES[195],
        bomb_score(196) == BOMB_SCORES[196],
        bomb_score(197) == BOMB_SCORES[197],
        bomb_score(198) == BOMB_SCORES[198],
        bomb_score(199) == BOMB_SCORES[199],
        bomb_score(200) == BOMB_SCORES[200],
        bomb_score(201) == BOMB_SCORES[201],
        bomb_score(202) == BOMB_SCORES[202],
        bomb_score(203) == BOMB_SCORES[203],
        bomb_score(204) == BOMB_SCORES[204],
        bomb_score(205) == BOMB_SCORES[205],
        bomb_score(206) == BOMB_SCORES[206],
        bomb_score(207) == BOMB_SCORES[207],
{
    assert(pow(2, 192) == 6277101735386680763835789423207666416102355444464034512896int);
    assert(pow12(1638400) == 374144419156711147060143317175368453031918731001856000000000000000000000000int && pow12(1638401) == 374147159481480218613064713676478017489700279322187647247721744522300620801int) by (nonlinear_arith);
    lemma_bomb_score_unique(192, 1638400);
    assert(pow(2, 193) == 12554203470773361527671578846415332832204710888928069025792int);
    assert(pow12(1735824) == 748287111567805206020464035822787337177217382201777955788574487360596606976int && pow12(1735825) == 748292284600203914842218728908387444821437608493133689317762851715087890625int) by (nonlinear_arith);
    lemma_bomb_score_unique(193, 1735824);
    assert(pow(2, 194) == 25108406941546723055343157692830665664409421777856138051584int);
    assert(pow12(1839041) == 1496569669526897690192465400192916104833845389372060812828874287844148174081int && pow12(1839042) == 1496579434882723752002847924028927876490348674633887866593795638781545025536int) by (nonlinear_arith);
    lemma_bomb_score_unique(194, 1839041);
    assert(pow(2, 195) == 50216813883093446110686315385661331328818843555712276103168int);
    assert(pow12(1948396) == 2993138076041085673740745659159042782805976260219427978843657879354674774016int && pow12(1948397) == 2993156510567897614303959031987346560629143115252230452149801555356880993841int) by (nonlinear_arith);
    lemma_bomb_score_unique(195, 1948396);
    assert(pow(2, 196) == 100433627766186892221372630771322662657637687111424552206336int);
    assert(pow12(2064254) == 5986288151108919703709690342271961309786850377708109116253997509928545161216int && pow12(2064255) == 5986322950919995311196755887559837661490109260365057708478096750293212890625int) by (nonlinear_arith);
    lemma_bomb_score_unique(196, 2064254);
    assert(pow(2, 197) == 200867255532373784442745261542645325315275374222849104412672int);
    assert(pow12(2187001) == 11972580875540301346368618110327200282012510602090703067450427715335980244001int && pow12(2187002) == 11972646568849000941618111818799140149403356810627162247867997958150643716096int) by (nonlinear_arith);
    lemma_bomb_score_unique(197, 2187001);
    assert(pow(2, 198) == 401734511064747568885490523085290650630550748445698208825344int);
    assert(pow12(2317047) == 23945180746414968320285683909584461796096288993017101972391065126720447190241int && pow12(2317048) == 23945304758940836476647377206725618525161285180598525071593328523115333943296int) by (nonlinear_arith);
    lemma_bomb_score_unique(198, 2317047);
    assert(pow(2, 199) == 803469022129495137770981046170581301261101496891396417650688int);
    assert(pow12(2454826) == 47890411966614043425837962855887125680181261371595720229746813795136012619776int && pow12(2454827) == 47890646071284261974235904252362500316908429979196129260595048251727886683921int) by (nonlinear_arith);
    lemma_bomb_score_unique(199, 2454826);
    assert(pow(2, 200) == 1606938044258990275541962092341162602522202993782792835301376int);
    assert(pow12(2600797) == 95780580839583548334923868743239003393459005824971516492188220573437863280241int && pow12(2600798) == 95781022769269212478970039245242534223026500437043297748457705089249096503296int) by (nonlinear_arith);
    lemma_bomb_score_unique(200, 2600797);
    assert(pow(2, 201) == 3213876088517980551083924184682325205044405987565585670602752int);
    assert(pow12(2755449) == 191561631011969501914116008049399866297855404710598059815874969309887573549601int && pow12(2755450) == 191562465265900725699351396510928665538791088570704020332275390625000000000000int) by (nonlinear_arith);
    lemma_bomb_score_unique(201, 2755449);
    assert(pow(2, 202) == 6427752177035961102167848369364650410088811975131171341205504int);
    assert(pow12(2919296) == 383122436973317244570928150097420100985704706829767489627009878201953016610816int && pow12(2919297) == 383124011831743863428595687917267395480429973881005706862327573809493590346241int) by (nonlinear_arith);
    lemma_bomb_score_unique(202, 2919296);
    assert(pow(2, 203) == 12855504354071922204335696738729300820177623950262342682411008int);
    assert(pow12(3092887) == 766246736458274692237997952193787964440373020912218249608542785116266094614881int && pow12(3092888) == 766249709401414443257161451855323730505387723787193157620559147736802950905856int) by (nonlinear_arith);
    lemma_bomb_score_unique(203, 3092887);
    assert(pow(2, 204) == 25711008708143844408671393477458601640355247900524685364822016int);
    assert(pow12(3276800) == 1532495540865888858358347027150309183618739122183602176000000000000000000000000int && pow12(3276801) == 1532501153041596053379770296690470502831176408092276596718446258648084683161601int) by (nonlinear_arith);
    lemma_bomb_score_unique(204, 3276800);
    assert(pow(2, 205) == 51422017416287688817342786954917203280710495801049370729644032int);
    assert(pow12(3471648) == 3064984008981730123859820690730136933077882397498482506910001100229003702173696int && pow12(3471649) == 3064994603335298426009496549514347589283690610454046320431263164117123130275201int) by (nonlinear_arith);
    lemma_bomb_score_unique(205, 3471648);
    assert(pow(2, 206) == 102844034832575377634685573909834406561420991602098741459288064int);
    assert(pow12(3678083) == 6129969365800998654393120598157989563979454327673374294299966443300670260722161int && pow12(3678084) == 6129989365279636488203665096822488582104468171300404701568186936449208424595456int) by (nonlinear_arith);
    lemma_bomb_score_unique(206, 3678083);
    assert(pow(2, 207) == 205688069665150755269371147819668813122841983204197482918576128int);
    assert(pow12(3896793) == 12259931313321911261131953316341491915993727589011467529951931240830501979978401int && pow12(3896794) == 12259969067286108628189016195020171512336970200073135932005587170741784550772736int) by (nonlinear_arith);
    lemma_bomb_score_unique(207, 3896793);
}

proof fn lemma_bomb_scores_13()
    requires
        pow(2, 207) == 205688069665150755269371147819668813122841983204197482918576128int,
        pow(25, 12) == 59604644775390625int,
    ensures
        pow(2, 223) == 13479973333575319897333507543509815336818572211270286240551805124608int,
        pow(25, 12) == 59604644775390625int,
        bomb_score(208) == BOMB_SCORES[208],
        bomb_score(209) == BOMB_SCORES[209],
        bomb_score(210) == BOMB_SCORES[210],
        bomb_score(211) == BOMB_SCORES[211],
        bomb_score(212) == BOMB_SCORES[212],
        bomb_score(213) == BOMB_SCORES[213],
        bomb_score(214) == BOMB_SCORES[214],
        bomb_score(215) == BOMB_SCORES[215],
        bomb_score(216) == BOMB_SCORES[216],
        bomb_score(217) == BOMB_SCORES[217],
        bomb_score(218) == BOMB_SCORES[218],
        bomb_score(219) == BOMB_SCORES[219],
        bomb_score(220) == BOMB_SCORES[220],
        bomb_score(221) == BOMB_SCORES[221],
        bomb_score(222) == BOMB_SCORES[222],
        bomb_score(223) == BOMB_SCORES[223],
{
    assert(pow(2, 208) == 411376139330301510538742295639337626245683966408394965837152256int);
    assert(pow12(4128509) == 24519907536860272033744547563898230455656837236742072674532878139383967787114481int && pow12(4128510) == 24519978806968300794661912115445095061463487530455276373926284289201000000000000int) by (nonlinear_arith);
    lemma_bomb_score_unique(208, 4128509);
    assert(pow(2, 209) == 822752278660603021077484591278675252491367932816789931674304512int);
    assert(pow12(4374003) == 49039825805940116663833275570644584029037756774580826695412588982309169076267441int && pow12(4374004) == 49039960346005507856867786009801278051956149496328856567267319636585036661129216int) by (nonlinear_arith);
    lemma_bomb_score_unique(209, 4374003);
    assert(pow(2, 210) == 1645504557321206042154969182557350504982735865633579863348609024int);
    assert(pow12(4634095) == 98079714314667253512189566202676622345953788088084928885767834645345840087890625int && pow12(4634096) == 98079968292621666208347657038748133479060624099731558693246273630680407831740416int) by (nonlinear_arith);
    lemma_bomb_score_unique(210, 4634095);
    assert(pow(2, 211) == 3291009114642412084309938365114701009965471731267159726697218048int);
    assert(pow12(4909652) == 196159127415251121872232295857713666786022446578056070061042949304877107690602496int && pow12(4909653) == 196159606861078633455755802920700829541354417650795132360998073503930252507169041int) by (nonlinear_arith);
    lemma_bomb_score_unique(211, 4909652);
    assert(pow(2, 212) == 6582018229284824168619876730229402019930943462534319453394436096int);
    assert(pow12(5201595) == 392318164189973459998075565358049607440269734270997499264122033888602187744140625int && pow12(5201596) == 392319069262926694313861280748513420177516545790129347577682760045564299277500416int) by (nonlinear_arith);
    lemma_bomb_score_unique(212, 5201595);
    assert(pow(2, 213) == 13164036458569648337239753460458804039861886925068638906788872192int);
    assert(pow12(5510898) == 784636440625027079840219168970341852356015737694609653005823874293299501259165696int && pow12(5510899) == 784638149175373053134094869692219131046046661527244865188479245317134104295329201int) by (nonlinear_arith);
    lemma_bomb_score_unique(213, 5510898);
    assert(pow(2, 214) == 26328072917139296674479506920917608079723773850137277813577744384int);
    assert(pow12(5838593) == 1569272727149726882032458035524604407485235645334704916355527655466524012383769601int && pow12(5838594) == 1569275952462822864603527937709127251887841173016599375308093742323685746058203136int) by (nonlinear_arith);
    lemma_bomb_score_unique(214, 5838593);
    assert(pow(2, 215) == 52656145834278593348959013841835216159447547700274555627155488768int);
    assert(pow12(6185774) == 3138546632533093139406839612185755502347767893656445950396591247836225923542552576int && pow12(6185775) == 3138552721115229762429224578987676576298774725771277766627370271742343902587890625int) by (nonlinear_arith);
    lemma_bomb_score_unique(215, 6185774);
    assert(pow(2, 216) == 105312291668557186697918027683670432318895095400549111254310977536int);
    assert(pow12(6553600) == 6277101735386680763835789423207666416102355444464034512896000000000000000000000000int && pow12(6553601) == 6277113229112883173714776698145378943084815006710179630971765305707093934814003201int) by (nonlinear_arith);
    lemma_bomb_score_unique(216, 6553600);
    assert(pow(2, 217) == 210624583337114373395836055367340864637790190801098222508621955072int);
    assert(pow12(6943297) == 12554196198008087419284136636024122452625926913711292647239691653243103257477610241int && pow12(6943298) == 12554217895261382352934897866810767725705996740419773728486453920223736341607223296int) by (nonlinear_arith);
    lemma_bomb_score_unique(217, 6943297);
    assert(pow(2, 218) == 421249166674228746791672110734681729275580381602196445017243910144int);
    assert(pow12(7356167) == 25108395481222516925763857787846981833963643972491653889724033769066988577389360161int && pow12(7356168) == 25108436440185391055682212236584913232299901629646457657623293691695957707142987776int) by (nonlinear_arith);
    lemma_bomb_score_unique(218, 7356167);
    assert(pow(2, 219) == 842498333348457493583344221469363458551160763204392890034487820288int);
    assert(pow12(7793587) == 50216755979430659274225717578592271655725697735016452938300588937762197753476604081int && pow12(7793588) == 50216833299603900941062210334802622514532229939499564777494885051358349519965126656int) by (nonlinear_arith);
    lemma_bomb_score_unique(219, 7793587);
    assert(pow(2, 220) == 1684996666696914987166688442938726917102321526408785780068975640576int);
    assert(pow12(8257018) == 100433541270979674250217666821727151946370405321695529674886668858916732056020914176int && pow12(8257019) == 100433687232063692416041871925864747183732793284710305660142219318647381202484462161int) by (nonlinear_arith);
    lemma_bomb_score_unique(220, 8257018);
    assert(pow(2, 221) == 3369993333393829974333376885877453834204643052817571560137951281152int);
    assert(pow12(8748006) == 200867126501130717855061096737360216182938651748683066144409964471538356536391438336int && pow12(8748007) == 200867402039011404212277513830647588268662642973242565826246097460138194946750455201int) by (nonlinear_arith);
    lemma_bomb_score_unique(221, 8748006);
    assert(pow(2, 222) == 6739986666787659948666753771754907668409286105635143120275902562304int);
    assert(pow12(9268190) == 401734509832877070385928463166163445129026716008795868716105050707336561000000000000int && pow12(9268191) == 401735029979419038109603053676621932073347391436335843589625706121131982805329770881int) by (nonlinear_arith);
    lemma_bomb_score_unique(222, 9268190);
    assert(pow(2, 223) == 13479973333575319897333507543509815336818572211270286240551805124608int);
    assert(pow12(9819305) == 803468767797373353164144836633686040388241410921049701403365379550529506816650390625int && pow12(9819306) == 803469749702978082634775768763190597801387694697656862150648109072098314269364391936int) by (nonlinear_arith);
    lemma_bomb_score_unique(223, 9819305);
}

proof fn lemma_bomb_scores_14()
    requires
        pow(2, 223) == 13479973333575319897333507543509815336818572211270286240551805124608int,
        pow(25, 12) == 59604644775390625int,
    ensures
        pow(2, 239) == 883423532389192164791648750371459257913741948437809479060803100646309888int,
        pow(25, 12) == 59604644775390625int,
        bomb_score(224) == BOMB_SCORES[224],
        bomb_score(225) == BOMB_SCORES[225],
        bomb_score(226) == BOMB_SCORES[226],
        bomb_score(227) == BOMB_SCORES[227],
        bomb_score(228) == BOMB_SCORES[228],
        bomb_score(229) == BOMB_SCORES[229],
        bomb_score(230) == BOMB_SCORES[230],
        bomb_score(231) == BOMB_SCORES[231],
        bomb_score(232) == BOMB_SCORES[232],
        bomb_score(233) == BOMB_SCORES[233],
        bomb_score(234) == BOMB_SCORES[234],
        bomb_score(235) == BOMB_SCORES[235],
        bomb_score(236) == BOMB_SCORES[236],
        bomb_score(237) == BOMB_SCORES[237],
        bomb_score(238) == BOMB_SCORES[238],
        bomb_score(239) == BOMB_SCORES[239],
{
    assert(pow(2, 224) == 26959946667150639794667015087019630673637144422540572481103610249216int);
    assert(pow12(10403191) == 1606937054110559553080514372153595402237109172494775825259961933704122666527629190881int && pow12(10403192) == 1606938907700947739909575805945910969047107771556369807678188585146631369840641703936int) by (nonlinear_arith);
    lemma_bomb_score_unique(224, 10403191);
    assert(pow(2, 225) == 53919893334301279589334030174039261347274288845081144962207220498432int);
    assert(pow12(11021797) == 3213874359909473376744891292873871576767344305334946898497981277439855014209821036241int && pow12(11021798) == 3213877859022328025637252586259329560764607125615594967812010988818981291193668407296int) by (nonlinear_arith);
    lemma_bomb_score_unique(225, 11021797);
    assert(pow(2, 226) == 107839786668602559178668060348078522694548577690162289924414440996864int);
    assert(pow12(11677187) == 6427747695843390692883990200905803200202539962319599969693007838070623267080293405681int && pow12(11677188) == 6427754301287722453416050432856585223732597444675991041261951968557816815854400045056int) by (nonlinear_arith);
    lemma_bomb_score_unique(226, 11677187);
    assert(pow(2, 227) == 215679573337205118357336120696157045389097155380324579848828881993728int);
    assert(pow12(12371549) == 12855499476266221794286695880669711948406113501111549716921079566362459134857153356401int && pow12(12371550) == 12855511945687981106910103875533523256519781276759153732105708633056640625000000000000int) by (nonlinear_arith);
    lemma_bomb_score_unique(227, 12371549);
    assert(pow(2, 228) == 431359146674410236714672241392314090778194310760649159697657763987456int);
    assert(pow12(13107200) == 25711008708143844408671393477458601640355247900524685364822016000000000000000000000000int && pow12(13107201) == 25711032247285229523901951406319683842986860538130459437980672310186947770780378726401int) by (nonlinear_arith);
    lemma_bomb_score_unique(228, 13107200);
    assert(pow(2, 229) == 862718293348820473429344482784628181556388621521298319395315527974912int);
    assert(pow12(13886594) == 51421987627041126069387823661154805565955796638561454683093777011683750942628291547136int && pow12(13886595) == 51422032062998274540762235174012358467408399220513354795560330774731578064101806640625int) by (nonlinear_arith);
    lemma_bomb_score_unique(229, 13886594);
    assert(pow(2, 230) == 1725436586697640946858688965569256363112777243042596638790631055949824int);
    assert(pow12(14712334) == 102843987891087429327928761499021237591915085711325814332309642318098385212986819219456int && pow12(14712335) == 102844071775012036706101958564341784831843976355123073360021509146891713187246337890625int) by (nonlinear_arith);
    lemma_bomb_score_unique(230, 14712334);
    assert(pow(2, 231) == 3450873173395281893717377931138512726225554486085193277581262111899648int);
    assert(pow12(15587175) == 205687990843406904254940756635366546106433813432308825080812095212249815464019775390625int && pow12(15587176) == 205688149195177578254590813531351541819524013832190217328619049170363799633777158782976int) by (nonlinear_arith);
    lemma_bomb_score_unique(231, 15587175);
    assert(pow(2, 232) == 6901746346790563787434755862277025452451108972170386555162524223799296int);
    assert(pow12(16514037) == 411376083974133256862575109575169662133033742011253084432025390268303122432979627419281int && pow12(16514038) == 411376382902532884136107507408342004464569521294173411983942530329179673405376357011456int) by (nonlinear_arith);
    lemma_bomb_score_unique(232, 16514037);
    assert(pow(2, 233) == 13803492693581127574869511724554050904902217944340773110325048447598592int);
    assert(pow12(17496012) == 822751750148631420334330252236227445485316717562605838927503214475421108373059331424256int && pow12(17496013) == 822752314450033673653834566071504548712171844153931693714053246661258887825639485346481int) by (nonlinear_arith);
    lemma_bomb_score_unique(233, 17496012);
    assert(pow(2, 234) == 27606985387162255149739023449108101809804435888681546220650096895197184int);
    assert(pow12(18536380) == 1645504552275464480300762985128605471248493428772027878261166287697250553856000000000000int && pow12(18536381) == 1645505617535266352823835362704615610139937206257762498419193944918879167225750494366961int) by (nonlinear_arith);
    lemma_bomb_score_unique(234, 18536380);
    assert(pow(2, 235) == 55213970774324510299478046898216203619608871777363092441300193790394368int);
    assert(pow12(19638610) == 3291008072898041254560337250851578021430236819132619576948184594638968859921000000000000int && pow12(19638611) == 3291010083840156554823898206421953289138655438672586554802501625723148883882584395951921int) by (nonlinear_arith);
    lemma_bomb_score_unique(235, 19638610);
    assert(pow(2, 236) == 110427941548649020598956093796432407239217743554726184882600387580788736int);
    assert(pow12(20806383) == 6582017969788963453500269051554784269995423810096449943331350021761691505495801622855361int && pow12(20806384) == 6582021765943081942669622501154451329216953432294890732249860444760602090867268419321856int) by (nonlinear_arith);
    lemma_bomb_score_unique(236, 20806383);
    assert(pow(2, 237) == 220855883097298041197912187592864814478435487109452369765200775161577472int);
    assert(pow12(22043594) == 13164029378189202951147074735611377978439042274651942496247731312393646138203426964443136int && pow12(22043595) == 13164036544370541269386929776073270378627580405494351209069157838294306558561953369140625int) by (nonlinear_arith);
    lemma_bomb_score_unique(237, 22043594);
    assert(pow(2, 238) == 441711766194596082395824375185729628956870974218904739530401550323154944int);
    assert(pow12(23354375) == 26328068090121333865514400721397691732557260535015172425943319467478431761264801025390625int && pow12(23354376) == 26328081618074511169192142572980573076408719133392859305008955263212817677739622584549376int) by (nonlinear_arith);
    lemma_bomb_score_unique(238, 23354375);
    assert(pow(2, 239) == 883423532389192164791648750371459257913741948437809479060803100646309888int);
    assert(pow12(24743098) == 52656125854786444469398306327223140140671440900552907640508741903820632616374900147818496int && pow12(24743099) == 52656151392156530986475120083785043141256152781691505931595256271989308987550077025342801int) by (nonlinear_arith);
    lemma_bomb_score_unique(239, 24743098);
}

proof fn lemma_bomb_scores_15()
    requires
        pow(2, 239) == 883423532389192164791648750371459257913741948437809479060803100646309888int,
        pow(25, 12) == 59604644775390625int,
    ensures
        pow(2, 255) == 57896044618658097711785492504343953926634992332820282019728792003956564819968int,
        pow(25, 12) == 59604644775390625int,
        bomb_score(240) == BOMB_SCORES[240],
        bomb_score(241) == BOMB_SCORES[241],
        bomb_score(242) == BOMB_SCORES[242],
        bomb_score(243) == BOMB_SCORES[243],
        bomb_score(244) == BOMB_SCORES[244],
        bomb_score(245) == BOMB_SCORES[245],
        bomb_score(246) == BOMB_SCORES[246],
        bomb_score(247) == BOMB_SCORES[247],
        bomb_score(248) == BOMB_SCORES[248],
        bomb_score(249) == BOMB_SCORES[249],
        bomb_score(250) == BOMB_SCORES[250],
        bomb_score(251) == BOMB_SCORES[251],
        bomb_score(252) == BOMB_SCORES[252],
        bomb_score(253) == BOMB_SCORES[253],
        bomb_score(254) == BOMB_SCORES[254],
        bomb_score(255) == BOMB_SCORES[255],
{
    assert(pow(2, 240) == 1766847064778384329583297500742918515827483896875618958121606201292619776int);
    assert(pow12(26214400) == 105312291668557186697918027683670432318895095400549111254310977536000000000000000000000000int && pow12(26214401) == 105312339876708628939482130360238257682489355200377904369666730585879554708716923440332801int) by (nonlinear_arith);
    lemma_bomb_score_unique(240, 26214400);
    assert(pow(2, 241) == 3533694129556768659166595001485837031654967793751237916243212402585239552int);
    assert(pow12(27773189) == 210624552325182670514068126982591386207311390513741880035801143427228554539766693095114321int && pow12(27773190) == 210624643330040932518962115272754620282504803207222701242615114853300543750561000000000000int) by (nonlinear_arith);
    lemma_bomb_score_unique(241, 27773189);
    assert(pow(2, 242) == 7067388259113537318333190002971674063309935587502475832486424805170479104int);
    assert(pow12(29424669) == 421249146196139594996550836028411426275716318490488762017619117833765713854584793237781361int && pow12(29424670) == 421249317990449302348193622279543950671232927150584108482648101465668457214961000000000000int) by (nonlinear_arith);
    lemma_bomb_score_unique(242, 29424669);
    assert(pow(2, 243) == 14134776518227074636666380005943348126619871175004951664972849610340958208int);
    assert(pow12(31174350) == 842498010494594679828237339178461372851952899818736947531006341989375244140625000000000000int && pow12(31174351) == 842498334798963804093614908628301536458813150945904818067024465454795901589068690763227201int) by (nonlinear_arith);
    lemma_bomb_score_unique(243, 31174350);
    assert(pow(2, 244) == 28269553036454149273332760011886696253239742350009903329945699220681916416int);
    assert(pow12(33028074) == 1684996439958049820109107648819894936096906207278092633833575998538969589485484553909374976int && pow12(33028075) == 1684997052163310309270832474015580915395929415994259292184172260296623511373996734619140625int) by (nonlinear_arith);
    lemma_bomb_score_unique(244, 33028074);
    assert(pow(2, 245) == 56539106072908298546665520023773392506479484700019806659891398441363832832int);
    assert(pow12(34992025) == 3369992324297884462783436595718450259072917193386494801475346392245971832334995269775390625int && pow12(34992026) == 3369993479987337927286106382628882631525055873654504217452762098324516404533819331979186176int) by (nonlinear_arith);
    lemma_bomb_score_unique(245, 34992025);
    assert(pow(2, 246) == 113078212145816597093331040047546785012958969400039613319782796882727665664int);
    assert(pow12(37072760) == 6739986646120302511311925187086768010233829084250226189357737114407938268594176000000000000int && pow12(37072761) == 6739988827772053083094468771508415293027692101792406201306820028140231466691379317471154721int) by (nonlinear_arith);
    lemma_bomb_score_unique(246, 37072760);
    assert(pow(2, 247) == 226156424291633194186662080095093570025917938800079226639565593765455331328int);
    assert(pow12(39277221) == 13479973184999252411616836676191437137307110463634558565903140762866531961521286165180761041int && pow12(39277222) == 13479977303409281248558687053504320672311932676802914528471046658962017828383065685819068416int) by (nonlinear_arith);
    lemma_bomb_score_unique(247, 39277221);
    assert(pow(2, 248) == 452312848583266388373324160190187140051835877600158453279131187530910662656int);
    assert(pow12(41612766) == 26959945604255594305537102035168396369901255926155058967885209689135888406510803447215558656int && pow12(41612767) == 26959953378778201404984524488865229739175406939367024323342747495615386591512735471182053761int) by (nonlinear_arith);
    lemma_bomb_score_unique(248, 41612766);
    assert(pow(2, 249) == 904625697166532776746648320380374280103671755200316906558262375061821325312int);
    assert(pow12(44087189) == 53919879009400525249312633556182725105816650568377904209492877816742309778253687372810466321int && pow12(44087190) == 53919893685741737039408864362796115470858569340904862552347270505653479663869761000000000000int) by (nonlinear_arith);
    lemma_bomb_score_unique(249, 44087189);
    assert(pow(2, 250) == 1809251394333065553493296640760748560207343510400633813116524750123642650624int);
    assert(pow12(46708750) == 107839766897136983513146985354844945336554539151422146256663836538791656494140625000000000000int && pow12(46708751) == 107839794602381828311677885705164793689767604169964233272279894938042268437314478250519880001int) by (nonlinear_arith);
    lemma_bomb_score_unique(250, 46708750);
    assert(pow(2, 251) == 3618502788666131106986593281521497120414687020801267626233049500247285301248int);
    assert(pow12(49486197) == 215679543801733400942303258234790595123406983718208313503878539890359500822310847533181034641int && pow12(49486198) == 215679596102273150920602091863183536706585201793808408295814169690068209613005115495804112896int) by (nonlinear_arith);
    lemma_bomb_score_unique(251, 49486197);
    assert(pow(2, 252) == 7237005577332262213973186563042994240829374041602535252466099000494570602496int);
    assert(pow12(52428800) == 431359146674410236714672241392314090778194310760649159697657763987456000000000000000000000000int && pow12(52428801) == 431359245404694033205556652919700690068588410172726321961195927952736164561371901503052185601int) by (nonlinear_arith);
    lemma_bomb_score_unique(252, 52428800);
    assert(pow(2, 253) == 14474011154664524427946373126085988481658748083205070504932198000989141204992int);
    assert(pow12(55546378) == 862718166323948218425623048120694317905147455544286740626641483477928159394884374917588258816int && pow12(55546379) == 862718352701879484546351929854098462887623611185170913901385149232276447629515406177984093841int) by (nonlinear_arith);
    lemma_bomb_score_unique(253, 55546378);
    assert(pow(2, 254) == 28948022309329048855892746252171976963317496166410141009864396001978282409984int);
    assert(pow12(58849338) == 1725436502819387781105872224372373202025334040537041969224167906647104363948379313101952454656int && pow12(58849339) == 1725436854654101179640717605674337214825170728947541947242548482695223592931675895348226077521int) by (nonlinear_arith);
    lemma_bomb_score_unique(254, 58849338);
    assert(pow(2, 255) == 57896044618658097711785492504343953926634992332820282019728792003956564819968int);
    assert(pow12(62348701) == 3450872515161149185809382949714308103494048722739473376177409337950530464239372803702759724401int && pow12(62348702) == 3450873179336555741567446665741523093335298666274426134802532210502844012908825357366178615296int) by (nonlinear_arith);
    lemma_bomb_score_unique(255, 62348701);
}

/// The table of ability scores holds the scores.
pub proof fn lemma_bomb_scores()
    ensures
        forall|n: nat| n <= 255 ==> #[trigger] bomb_score(n) == BOMB_SCORES[n as int],
{
    lemma_bomb_scores_0();
    lemma_bomb_scores_1();
    lemma_bomb_scores_2();
    lemma_bomb_scores_3();
    lemma_bomb_scores_4();
    lemma_bomb_scores_5();
    lemma_bomb_scores_6();
    lemma_bomb_scores_7();
    lemma_bomb_scores_8();
    lemma_bomb_scores_9();
    lemma_bomb_scores_10();
    lemma_bomb_scores_11();
    lemma_bomb_scores_12();
    lemma_bomb_scores_13();
    lemma_bomb_scores_14();
    lemma_bomb_scores_15();
    assert forall|n: nat| n <= 255 implies #[trigger] bomb_score(n) == BOMB_SCORES[n as int] by {
        lemma_pick_256(n as int);
    }
}

/// A number from 0 to 255 is one of 256 numbers.
proof fn lemma_pick_256(n: int)
    requires
        0 <= n <= 255,
    ensures

        n == 0 || n == 1 || n == 2 || n == 3 || n == 4 || n == 5 || n == 6 || n == 7 || n == 8 || n == 9 || n == 10 || n == 11 || n == 12 || n == 13 || n == 14 || n == 15 || n == 16 || n == 17 || n == 18 || n == 19 || n == 20 || n == 21 || n == 22 || n == 23 || n == 24 || n == 25 || n == 26 || n == 27 || n == 28 || n == 29 || n == 30 || n == 31 || n == 32 || n == 33 || n == 34 || n == 35 || n == 36 || n == 37 || n == 38 || n == 39 || n == 40 || n == 41 || n == 42 || n == 43 || n == 44 || n == 45 || n == 46 || n == 47 || n == 48 || n == 49 || n == 50 || n == 51 || n == 52 || n == 53 || n == 54 || n == 55 || n == 56 || n == 57 || n == 58 || n == 59 || n == 60 || n == 61 || n == 62 || n == 63 || n == 64 || n == 65 || n == 66 || n == 67 || n == 68 || n == 69 || n == 70 || n == 71 || n == 72 || n == 73 || n == 74 || n == 75 || n == 76 || n == 77 || n == 78 || n == 79 || n == 80 || n == 81 || n == 82 || n == 83 || n == 84 || n == 85 || n == 86 || n == 87 || n == 88 || n == 89 || n == 90 || n == 91 || n == 92 || n == 93 || n == 94 || n == 95 || n == 96 || n == 97 || n == 98 || n == 99 || n == 100 || n == 101 || n == 102 || n == 103 || n == 104 || n == 105 || n == 106 || n == 107 || n == 108 || n == 109 || n == 110 || n == 111 || n == 112 || n == 113 || n == 114 || n == 115 || n == 116 || n == 117 || n == 118 || n == 119 || n == 120 || n == 121 || n == 122 || n == 123 || n == 124 || n == 125 || n == 126 || n == 127 || n == 128 || n == 129 || n == 130 || n == 131 || n == 132 || n == 133 || n == 134 || n == 135 || n == 136 || n == 137 || n == 138 || n == 139 || n == 140 || n == 141 || n == 142 || n == 143 || n == 144 || n == 145 || n == 146 || n == 147 || n == 148 || n == 149 || n == 150 || n == 151 || n == 152 || n == 153 || n == 154 || n == 155 || n == 156 || n == 157 || n == 158 || n == 159 || n == 160 || n == 161 || n == 162 || n == 163 || n == 164 || n == 165 || n == 166 || n == 167 || n == 168 || n == 169 || n == 170 || n == 171 || n == 172 || n == 173 || n == 174 || n == 175 || n == 176 || n == 177 || n == 178 || n == 179 || n == 180 || n == 181 || n == 182 || n == 183 || n == 184 || n == 185 || n == 186 || n == 187 || n == 188 || n == 189 || n == 190 || n == 191 || n == 192 || n == 193 || n == 194 || n == 195 || n == 196 || n == 197 || n == 198 || n == 199 || n == 200 || n == 201 || n == 202 || n == 203 || n == 204 || n == 205 || n == 206 || n == 207 || n == 208 || n == 209 || n == 210 || n == 211 || n == 212 || n == 213 || n == 214 || n == 215 || n == 216 || n == 217 || n == 218 || n == 219 || n == 220 || n == 221 || n == 222 || n == 223 || n == 224 || n == 225 || n == 226 || n == 227 || n == 228 || n == 229 || n == 230 || n == 231 || n == 232 || n == 233 || n == 234 || n == 235 || n == 236 || n == 237 || n == 238 || n == 239 || n == 240 || n == 241 || n == 242 || n == 243 || n == 244 || n == 245 || n == 246 || n == 247 || n == 248 || n == 249 || n == 250 || n == 251 || n == 252 || n == 253 || n == 254 || n == 255,
{
}

/// The score of a cascade of `n` rounds, held at `SCORE_CAP`.
pub fn chain_score_of(n: u8) -> (s: i64)
    ensures
        0 <= s <= SCORE_CAP,
        chain_score(n as nat) <= SCORE_CAP ==> s == chain_score(n as nat),
        chain_score(n as nat) > SCORE_CAP ==> s == SCORE_CAP,
{
    proof {
        lemma_chain_scores();
        lemma_chain_score_grows(0, n as nat);
        if n >= 79 {
            lemma_chain_score_grows(79, n as nat);
        } else {
            lemma_chain_score_grows(n as nat, 78);
        }
    }
    if n <= 78 {
        CHAIN_SCORES[n as usize]
    } else {
        SCORE_CAP
    }
}

/// The obstacles that a cascade of `n` rounds sends.
pub fn chain_obstacles_of(n: u8) -> (r: i32)
    ensures
        r == chain_obstacles(n as nat),
        r >= 0,
{
    proof {
        lemma_chain_score_grows(0, n as nat);
    }
    let half = chain_score_of(n) / 2;
    if half > 2147483647 {
        2147483647
    } else {
        half as i32
    }
}

/// The score of an ability use that removes `n` blocks.
pub fn bomb_score_of(n: u8) -> (s: i32)
    ensures
        s == bomb_score(n as nat),
        25 <= s,
{
    proof {
        lemma_bomb_scores();
        lemma_bomb_floor(n as nat);
    }
    BOMB_SCORES[n as usize]
}

/// No ability use scores less than 25.
pub proof fn lemma_bomb_floor(n: nat)
    requires
        n <= 255,
    ensures
        25 <= bomb_score(n),
{
    lemma_bomb_scores();
    lemma_pick_256(n as int);
}

/// The gauge points that a cascade of `n` rounds takes from the opponent.
pub fn gauge_cut_of(n: u8) -> (r: i32)
    ensures
        r == gauge_cut(n as nat),
{
    if n >= 3 {
        12 + 2 * (n as i32)
    } else {
        0
    }
}

/// The result of a placement whose cascade had `chains` rounds and the
/// first-round spread `height`.
pub fn calc_chain_result(chains: u8, height: i8) -> (r: ActionResult)
    ensures
        r == chain_result(chains as nat, height as int),
{
    ActionResult::new(chains, chain_obstacles_of(chains), gauge_cut_of(chains), height)
}

/// The result of an ability use that removed `bombed` blocks and set off a
/// cascade of `chains` rounds with the first-round spread `height`.
pub fn calc_bomb_result(bombed: u8, chains: u8, height: i8) -> (r: ActionResult)
    ensures
        r == bomb_result(bombed as nat, chains as nat, height as int),
{
    proof {
        lemma_chain_score_grows(0, chains as nat);
    }
    let total: i64 = bomb_score_of(bombed) as i64 + chain_score_of(chains);
    let half = total / 2;
    let obstacle: i32 = if half > 2147483647 {
        2147483647
    } else {
        half as i32
    };
    ActionResult::new(chains, obstacle, gauge_cut_of(chains), height)
}

} // verus!
