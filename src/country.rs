//! Country codes: the numeric codes of the store and their ISO 3166-1
//! alpha-2 names.
//!
//! Code 0 stands for a source whose country is unknown, codes 1 to
//! 249 for the ISO countries in alphabetical order, and `WORLDWIDE` for the
//! aggregate of all of them.
use vstd::prelude::*;

verus! {

/// Code of a source whose country could not be resolved.
pub const UNKNOWN: u8 = 0;

/// Number of ISO countries with a code.
pub const ISO_COUNT: u8 = 249;

/// Number of per-country entries of a heatmap: `UNKNOWN` and every ISO country.
pub const COUNTRY_COUNT: usize = 250;

/// The sentinel code whose aggregate counts every record.
pub const WORLDWIDE: u8 = 250;

/// The ISO name of a code, as two upper-case ASCII letters.
pub open spec fn iso_name(code: u8) -> Option<(u8, u8)> {
    match code {
        1 => Some((65u8, 68u8)),
        2 => Some((65u8, 69u8)),
        3 => Some((65u8, 70u8)),
        4 => Some((65u8, 71u8)),
        5 => Some((65u8, 73u8)),
        6 => Some((65u8, 76u8)),
        7 => Some((65u8, 77u8)),
        8 => Some((65u8, 79u8)),
        9 => Some((65u8, 81u8)),
        10 => Some((65u8, 82u8)),
        11 => Some((65u8, 83u8)),
        12 => Some((65u8, 84u8)),
        13 => Some((65u8, 85u8)),
        14 => Some((65u8, 87u8)),
        15 => Some((65u8, 88u8)),
        16 => Some((65u8, 90u8)),
        17 => Some((66u8, 65u8)),
        18 => Some((66u8, 66u8)),
        19 => Some((66u8, 68u8)),
        20 => Some((66u8, 69u8)),
        21 => Some((66u8, 70u8)),
        22 => Some((66u8, 71u8)),
        23 => Some((66u8, 72u8)),
        24 => Some((66u8, 73u8)),
        25 => Some((66u8, 74u8)),
        26 => Some((66u8, 76u8)),
        27 => Some((66u8, 77u8)),
        28 => Some((66u8, 78u8)),
        29 => Some((66u8, 79u8)),
        30 => Some((66u8, 81u8)),
        31 => Some((66u8, 82u8)),
        32 => Some((66u8, 83u8)),
        33 => Some((66u8, 84u8)),
        34 => Some((66u8, 86u8)),
        35 => Some((66u8, 87u8)),
        36 => Some((66u8, 89u8)),
        37 => Some((66u8, 90u8)),
        38 => Some((67u8, 65u8)),
        39 => Some((67u8, 67u8)),
        40 => Some((67u8, 68u8)),
        41 => Some((67u8, 70u8)),
        42 => Some((67u8, 71u8)),
        43 => Some((67u8, 72u8)),
        44 => Some((67u8, 73u8)),
        45 => Some((67u8, 75u8)),
        46 => Some((67u8, 76u8)),
        47 => Some((67u8, 77u8)),
        48 => Some((67u8, 78u8)),
        49 => Some((67u8, 79u8)),
        50 => Some((67u8, 82u8)),
        51 => Some((67u8, 85u8)),
        52 => Some((67u8, 86u8)),
        53 => Some((67u8, 87u8)),
        54 => Some((67u8, 88u8)),
        55 => Some((67u8, 89u8)),
        56 => Some((67u8, 90u8)),
        57 => Some((68u8, 69u8)),
        58 => Some((68u8, 74u8)),
        59 => Some((68u8, 75u8)),
        60 => Some((68u8, 77u8)),
        61 => Some((68u8, 79u8)),
        62 => Some((68u8, 90u8)),
        63 => Some((69u8, 67u8)),
        64 => Some((69u8, 69u8)),
        65 => Some((69u8, 71u8)),
        66 => Some((69u8, 72u8)),
        67 => Some((69u8, 82u8)),
        68 => Some((69u8, 83u8)),
        69 => Some((69u8, 84u8)),
        70 => Some((70u8, 73u8)),
        71 => Some((70u8, 74u8)),
        72 => Some((70u8, 75u8)),
        73 => Some((70u8, 77u8)),
        74 => Some((70u8, 79u8)),
        75 => Some((70u8, 82u8)),
        76 => Some((71u8, 65u8)),
        77 => Some((71u8, 66u8)),
        78 => Some((71u8, 68u8)),
        79 => Some((71u8, 69u8)),
        80 => Some((71u8, 70u8)),
        81 => Some((71u8, 71u8)),
        82 => Some((71u8, 72u8)),
        83 => Some((71u8, 73u8)),
        84 => Some((71u8, 76u8)),
        85 => Some((71u8, 77u8)),
        86 => Some((71u8, 78u8)),
        87 => Some((71u8, 80u8)),
        88 => Some((71u8, 81u8)),
        89 => Some((71u8, 82u8)),
        90 => Some((71u8, 83u8)),
        91 => Some((71u8, 84u8)),
        92 => Some((71u8, 85u8)),
        93 => Some((71u8, 87u8)),
        94 => Some((71u8, 89u8)),
        95 => Some((72u8, 75u8)),
        96 => Some((72u8, 77u8)),
        97 => Some((72u8, 78u8)),
        98 => Some((72u8, 82u8)),
        99 => Some((72u8, 84u8)),
        100 => Some((72u8, 85u8)),
        101 => Some((73u8, 68u8)),
        102 => Some((73u8, 69u8)),
        103 => Some((73u8, 76u8)),
        104 => Some((73u8, 77u8)),
        105 => Some((73u8, 78u8)),
        106 => Some((73u8, 79u8)),
        107 => Some((73u8, 81u8)),
        108 => Some((73u8, 82u8)),
        109 => Some((73u8, 83u8)),
        110 => Some((73u8, 84u8)),
        111 => Some((74u8, 69u8)),
        112 => Some((74u8, 77u8)),
        113 => Some((74u8, 79u8)),
        114 => Some((74u8, 80u8)),
        115 => Some((75u8, 69u8)),
        116 => Some((75u8, 71u8)),
        117 => Some((75u8, 72u8)),
        118 => Some((75u8, 73u8)),
        119 => Some((75u8, 77u8)),
        120 => Some((75u8, 78u8)),
        121 => Some((75u8, 80u8)),
        122 => Some((75u8, 82u8)),
        123 => Some((75u8, 87u8)),
        124 => Some((75u8, 89u8)),
        125 => Some((75u8, 90u8)),
        126 => Some((76u8, 65u8)),
        127 => Some((76u8, 66u8)),
        128 => Some((76u8, 67u8)),
        129 => Some((76u8, 73u8)),
        130 => Some((76u8, 75u8)),
        131 => Some((76u8, 82u8)),
        132 => Some((76u8, 83u8)),
        133 => Some((76u8, 84u8)),
        134 => Some((76u8, 85u8)),
        135 => Some((76u8, 86u8)),
        136 => Some((76u8, 89u8)),
        137 => Some((77u8, 65u8)),
        138 => Some((77u8, 67u8)),
        139 => Some((77u8, 68u8)),
        140 => Some((77u8, 69u8)),
        141 => Some((77u8, 70u8)),
        142 => Some((77u8, 71u8)),
        143 => Some((77u8, 72u8)),
        144 => Some((77u8, 75u8)),
        145 => Some((77u8, 76u8)),
        146 => Some((77u8, 77u8)),
        147 => Some((77u8, 78u8)),
        148 => Some((77u8, 79u8)),
        149 => Some((77u8, 80u8)),
        150 => Some((77u8, 81u8)),
        151 => Some((77u8, 82u8)),
        152 => Some((77u8, 83u8)),
        153 => Some((77u8, 84u8)),
        154 => Some((77u8, 85u8)),
        155 => Some((77u8, 86u8)),
        156 => Some((77u8, 87u8)),
        157 => Some((77u8, 88u8)),
        158 => Some((77u8, 89u8)),
        159 => Some((77u8, 90u8)),
        160 => Some((78u8, 65u8)),
        161 => Some((78u8, 67u8)),
        162 => Some((78u8, 69u8)),
        163 => Some((78u8, 70u8)),
        164 => Some((78u8, 71u8)),
        165 => Some((78u8, 73u8)),
        166 => Some((78u8, 76u8)),
        167 => Some((78u8, 79u8)),
        168 => Some((78u8, 80u8)),
        169 => Some((78u8, 82u8)),
        170 => Some((78u8, 85u8)),
        171 => Some((78u8, 90u8)),
        172 => Some((79u8, 77u8)),
        173 => Some((80u8, 65u8)),
        174 => Some((80u8, 69u8)),
        175 => Some((80u8, 70u8)),
        176 => Some((80u8, 71u8)),
        177 => Some((80u8, 72u8)),
        178 => Some((80u8, 75u8)),
        179 => Some((80u8, 76u8)),
        180 => Some((80u8, 77u8)),
        181 => Some((80u8, 78u8)),
        182 => Some((80u8, 82u8)),
        183 => Some((80u8, 83u8)),
        184 => Some((80u8, 84u8)),
        185 => Some((80u8, 87u8)),
        186 => Some((80u8, 89u8)),
        187 => Some((81u8, 65u8)),
        188 => Some((82u8, 69u8)),
        189 => Some((82u8, 79u8)),
        190 => Some((82u8, 83u8)),
        191 => Some((82u8, 85u8)),
        192 => Some((82u8, 87u8)),
        193 => Some((83u8, 65u8)),
        194 => Some((83u8, 66u8)),
        195 => Some((83u8, 67u8)),
        196 => Some((83u8, 68u8)),
        197 => Some((83u8, 69u8)),
        198 => Some((83u8, 71u8)),
        199 => Some((83u8, 72u8)),
        200 => Some((83u8, 73u8)),
        201 => Some((83u8, 74u8)),
        202 => Some((83u8, 75u8)),
        203 => Some((83u8, 76u8)),
        204 => Some((83u8, 77u8)),
        205 => Some((83u8, 78u8)),
        206 => Some((83u8, 79u8)),
        207 => Some((83u8, 82u8)),
        208 => Some((83u8, 83u8)),
        209 => Some((83u8, 84u8)),
        210 => Some((83u8, 86u8)),
        211 => Some((83u8, 88u8)),
        212 => Some((83u8, 89u8)),
        213 => Some((83u8, 90u8)),
        214 => Some((84u8, 67u8)),
        215 => Some((84u8, 68u8)),
        216 => Some((84u8, 70u8)),
        217 => Some((84u8, 71u8)),
        218 => Some((84u8, 72u8)),
        219 => Some((84u8, 74u8)),
        220 => Some((84u8, 75u8)),
        221 => Some((84u8, 76u8)),
        222 => Some((84u8, 77u8)),
        223 => Some((84u8, 78u8)),
        224 => Some((84u8, 79u8)),
        225 => Some((84u8, 82u8)),
        226 => Some((84u8, 84u8)),
        227 => Some((84u8, 86u8)),
        228 => Some((84u8, 87u8)),
        229 => Some((84u8, 90u8)),
        230 => Some((85u8, 65u8)),
        231 => Some((85u8, 71u8)),
        232 => Some((85u8, 77u8)),
        233 => Some((85u8, 83u8)),
        234 => Some((85u8, 89u8)),
        235 => Some((85u8, 90u8)),
        236 => Some((86u8, 65u8)),
        237 => Some((86u8, 67u8)),
        238 => Some((86u8, 69u8)),
        239 => Some((86u8, 71u8)),
        240 => Some((86u8, 73u8)),
        241 => Some((86u8, 78u8)),
        242 => Some((86u8, 85u8)),
        243 => Some((87u8, 70u8)),
        244 => Some((87u8, 83u8)),
        245 => Some((89u8, 69u8)),
        246 => Some((89u8, 84u8)),
        247 => Some((90u8, 65u8)),
        248 => Some((90u8, 77u8)),
        249 => Some((90u8, 87u8)),
        _ => None,
    }
}

/// The ISO name of `code`, if it names a country.
pub fn country_name(code: u8) -> (r: Option<(u8, u8)>)
    ensures
        r == iso_name(code),
{
    match code {
        1 => Some((65u8, 68u8)),
        2 => Some((65u8, 69u8)),
        3 => Some((65u8, 70u8)),
        4 => Some((65u8, 71u8)),
        5 => Some((65u8, 73u8)),
        6 => Some((65u8, 76u8)),
        7 => Some((65u8, 77u8)),
        8 => Some((65u8, 79u8)),
        9 => Some((65u8, 81u8)),
        10 => Some((65u8, 82u8)),
        11 => Some((65u8, 83u8)),
        12 => Some((65u8, 84u8)),
        13 => Some((65u8, 85u8)),
        14 => Some((65u8, 87u8)),
        15 => Some((65u8, 88u8)),
        16 => Some((65u8, 90u8)),
        17 => Some((66u8, 65u8)),
        18 => Some((66u8, 66u8)),
        19 => Some((66u8, 68u8)),
        20 => Some((66u8, 69u8)),
        21 => Some((66u8, 70u8)),
        22 => Some((66u8, 71u8)),
        23 => Some((66u8, 72u8)),
        24 => Some((66u8, 73u8)),
        25 => Some((66u8, 74u8)),
        26 => Some((66u8, 76u8)),
        27 => Some((66u8, 77u8)),
        28 => Some((66u8, 78u8)),
        29 => Some((66u8, 79u8)),
        30 => Some((66u8, 81u8)),
        31 => Some((66u8, 82u8)),
        32 => Some((66u8, 83u8)),
        33 => Some((66u8, 84u8)),
        34 => Some((66u8, 86u8)),
        35 => Some((66u8, 87u8)),
        36 => Some((66u8, 89u8)),
        37 => Some((66u8, 90u8)),
        38 => Some((67u8, 65u8)),
        39 => Some((67u8, 67u8)),
        40 => Some((67u8, 68u8)),
        41 => Some((67u8, 70u8)),
        42 => Some((67u8, 71u8)),
        43 => Some((67u8, 72u8)),
        44 => Some((67u8, 73u8)),
        45 => Some((67u8, 75u8)),
        46 => Some((67u8, 76u8)),
        47 => Some((67u8, 77u8)),
        48 => Some((67u8, 78u8)),
        49 => Some((67u8, 79u8)),
        50 => Some((67u8, 82u8)),
        51 => Some((67u8, 85u8)),
        52 => Some((67u8, 86u8)),
        53 => Some((67u8, 87u8)),
        54 => Some((67u8, 88u8)),
        55 => Some((67u8, 89u8)),
        56 => Some((67u8, 90u8)),
        57 => Some((68u8, 69u8)),
        58 => Some((68u8, 74u8)),
        59 => Some((68u8, 75u8)),
        60 => Some((68u8, 77u8)),
        61 => Some((68u8, 79u8)),
        62 => Some((68u8, 90u8)),
        63 => Some((69u8, 67u8)),
        64 => Some((69u8, 69u8)),
        65 => Some((69u8, 71u8)),
        66 => Some((69u8, 72u8)),
        67 => Some((69u8, 82u8)),
        68 => Some((69u8, 83u8)),
        69 => Some((69u8, 84u8)),
        70 => Some((70u8, 73u8)),
        71 => Some((70u8, 74u8)),
        72 => Some((70u8, 75u8)),
        73 => Some((70u8, 77u8)),
        74 => Some((70u8, 79u8)),
        75 => Some((70u8, 82u8)),
        76 => Some((71u8, 65u8)),
        77 => Some((71u8, 66u8)),
        78 => Some((71u8, 68u8)),
        79 => Some((71u8, 69u8)),
        80 => Some((71u8, 70u8)),
        81 => Some((71u8, 71u8)),
        82 => Some((71u8, 72u8)),
        83 => Some((71u8, 73u8)),
        84 => Some((71u8, 76u8)),
        85 => Some((71u8, 77u8)),
        86 => Some((71u8, 78u8)),
        87 => Some((71u8, 80u8)),
        88 => Some((71u8, 81u8)),
        89 => Some((71u8, 82u8)),
        90 => Some((71u8, 83u8)),
        91 => Some((71u8, 84u8)),
        92 => Some((71u8, 85u8)),
        93 => Some((71u8, 87u8)),
        94 => Some((71u8, 89u8)),
        95 => Some((72u8, 75u8)),
        96 => Some((72u8, 77u8)),
        97 => Some((72u8, 78u8)),
        98 => Some((72u8, 82u8)),
        99 => Some((72u8, 84u8)),
        100 => Some((72u8, 85u8)),
        101 => Some((73u8, 68u8)),
        102 => Some((73u8, 69u8)),
        103 => Some((73u8, 76u8)),
        104 => Some((73u8, 77u8)),
        105 => Some((73u8, 78u8)),
        106 => Some((73u8, 79u8)),
        107 => Some((73u8, 81u8)),
        108 => Some((73u8, 82u8)),
        109 => Some((73u8, 83u8)),
        110 => Some((73u8, 84u8)),
        111 => Some((74u8, 69u8)),
        112 => Some((74u8, 77u8)),
        113 => Some((74u8, 79u8)),
        114 => Some((74u8, 80u8)),
        115 => Some((75u8, 69u8)),
        116 => Some((75u8, 71u8)),
        117 => Some((75u8, 72u8)),
        118 => Some((75u8, 73u8)),
        119 => Some((75u8, 77u8)),
        120 => Some((75u8, 78u8)),
        121 => Some((75u8, 80u8)),
        122 => Some((75u8, 82u8)),
        123 => Some((75u8, 87u8)),
        124 => Some((75u8, 89u8)),
        125 => Some((75u8, 90u8)),
        126 => Some((76u8, 65u8)),
        127 => Some((76u8, 66u8)),
        128 => Some((76u8, 67u8)),
        129 => Some((76u8, 73u8)),
        130 => Some((76u8, 75u8)),
        131 => Some((76u8, 82u8)),
        132 => Some((76u8, 83u8)),
        133 => Some((76u8, 84u8)),
        134 => Some((76u8, 85u8)),
        135 => Some((76u8, 86u8)),
        136 => Some((76u8, 89u8)),
        137 => Some((77u8, 65u8)),
        138 => Some((77u8, 67u8)),
        139 => Some((77u8, 68u8)),
        140 => Some((77u8, 69u8)),
        141 => Some((77u8, 70u8)),
        142 => Some((77u8, 71u8)),
        143 => Some((77u8, 72u8)),
        144 => Some((77u8, 75u8)),
        145 => Some((77u8, 76u8)),
        146 => Some((77u8, 77u8)),
        147 => Some((77u8, 78u8)),
        148 => Some((77u8, 79u8)),
        149 => Some((77u8, 80u8)),
        150 => Some((77u8, 81u8)),
        151 => Some((77u8, 82u8)),
        152 => Some((77u8, 83u8)),
        153 => Some((77u8, 84u8)),
        154 => Some((77u8, 85u8)),
        155 => Some((77u8, 86u8)),
        156 => Some((77u8, 87u8)),
        157 => Some((77u8, 88u8)),
        158 => Some((77u8, 89u8)),
        159 => Some((77u8, 90u8)),
        160 => Some((78u8, 65u8)),
        161 => Some((78u8, 67u8)),
        162 => Some((78u8, 69u8)),
        163 => Some((78u8, 70u8)),
        164 => Some((78u8, 71u8)),
        165 => Some((78u8, 73u8)),
        166 => Some((78u8, 76u8)),
        167 => Some((78u8, 79u8)),
        168 => Some((78u8, 80u8)),
        169 => Some((78u8, 82u8)),
        170 => Some((78u8, 85u8)),
        171 => Some((78u8, 90u8)),
        172 => Some((79u8, 77u8)),
        173 => Some((80u8, 65u8)),
        174 => Some((80u8, 69u8)),
        175 => Some((80u8, 70u8)),
        176 => Some((80u8, 71u8)),
        177 => Some((80u8, 72u8)),
        178 => Some((80u8, 75u8)),
        179 => Some((80u8, 76u8)),
        180 => Some((80u8, 77u8)),
        181 => Some((80u8, 78u8)),
        182 => Some((80u8, 82u8)),
        183 => Some((80u8, 83u8)),
        184 => Some((80u8, 84u8)),
        185 => Some((80u8, 87u8)),
        186 => Some((80u8, 89u8)),
        187 => Some((81u8, 65u8)),
        188 => Some((82u8, 69u8)),
        189 => Some((82u8, 79u8)),
        190 => Some((82u8, 83u8)),
        191 => Some((82u8, 85u8)),
        192 => Some((82u8, 87u8)),
        193 => Some((83u8, 65u8)),
        194 => Some((83u8, 66u8)),
        195 => Some((83u8, 67u8)),
        196 => Some((83u8, 68u8)),
        197 => Some((83u8, 69u8)),
        198 => Some((83u8, 71u8)),
        199 => Some((83u8, 72u8)),
        200 => Some((83u8, 73u8)),
        201 => Some((83u8, 74u8)),
        202 => Some((83u8, 75u8)),
        203 => Some((83u8, 76u8)),
        204 => Some((83u8, 77u8)),
        205 => Some((83u8, 78u8)),
        206 => Some((83u8, 79u8)),
        207 => Some((83u8, 82u8)),
        208 => Some((83u8, 83u8)),
        209 => Some((83u8, 84u8)),
        210 => Some((83u8, 86u8)),
        211 => Some((83u8, 88u8)),
        212 => Some((83u8, 89u8)),
        213 => Some((83u8, 90u8)),
        214 => Some((84u8, 67u8)),
        215 => Some((84u8, 68u8)),
        216 => Some((84u8, 70u8)),
        217 => Some((84u8, 71u8)),
        218 => Some((84u8, 72u8)),
        219 => Some((84u8, 74u8)),
        220 => Some((84u8, 75u8)),
        221 => Some((84u8, 76u8)),
        222 => Some((84u8, 77u8)),
        223 => Some((84u8, 78u8)),
        224 => Some((84u8, 79u8)),
        225 => Some((84u8, 82u8)),
        226 => Some((84u8, 84u8)),
        227 => Some((84u8, 86u8)),
        228 => Some((84u8, 87u8)),
        229 => Some((84u8, 90u8)),
        230 => Some((85u8, 65u8)),
        231 => Some((85u8, 71u8)),
        232 => Some((85u8, 77u8)),
        233 => Some((85u8, 83u8)),
        234 => Some((85u8, 89u8)),
        235 => Some((85u8, 90u8)),
        236 => Some((86u8, 65u8)),
        237 => Some((86u8, 67u8)),
        238 => Some((86u8, 69u8)),
        239 => Some((86u8, 71u8)),
        240 => Some((86u8, 73u8)),
        241 => Some((86u8, 78u8)),
        242 => Some((86u8, 85u8)),
        243 => Some((87u8, 70u8)),
        244 => Some((87u8, 83u8)),
        245 => Some((89u8, 69u8)),
        246 => Some((89u8, 84u8)),
        247 => Some((90u8, 65u8)),
        248 => Some((90u8, 77u8)),
        249 => Some((90u8, 87u8)),
        _ => None,
    }
}

/// `b` with an ASCII lower-case letter turned upper-case.
pub open spec fn ascii_upper(b: u8) -> u8 {
    if 97 <= b <= 122 {
        (b - 32) as u8
    } else {
        b
    }
}

/// Whether `code` is the code of the ISO country named `name`, letters
/// compared without regard to ASCII case.
pub open spec fn names_country(code: u8, name: Seq<u8>) -> bool {
    name.len() == 2 && iso_name(code) == Some((ascii_upper(name[0]), ascii_upper(name[1])))
}

fn to_ascii_upper(b: u8) -> (r: u8)
    ensures
        r == ascii_upper(b),
{
    if 97 <= b && b <= 122 {
        b - 32
    } else {
        b
    }
}

/// The code of the ISO country named `name` (two ASCII letters, any case).
pub fn search_country(name: &[u8]) -> (r: Option<u8>)
    ensures
        r matches Some(c) ==> names_country(c, name@),
        r is None <==> forall|c: u8| !names_country(c, name@),
{
    if name.len() != 2 {
        return None;
    }
    let a = to_ascii_upper(name[0]);
    let b = to_ascii_upper(name[1]);
    let mut code: u8 = 1;
    while code <= ISO_COUNT
        invariant
            1 <= code <= ISO_COUNT + 1,
            name@.len() == 2,
            a == ascii_upper(name@[0]),
            b == ascii_upper(name@[1]),
            forall|c: u8| c < code ==> !names_country(c, name@),
        decreases ISO_COUNT + 1 - code,
    {
        if country_name(code) == Some((a, b)) {
            assert(names_country(code, name@));
            return Some(code);
        }
        code += 1;
    }
    assert forall|c: u8| !names_country(c, name@) by {
        if c >= code {
            assert(iso_name(c) is None);
        }
    }
    None
}

} // verus!
