//! Country labels.

use vstd::prelude::*;

use crate::text;

verus! {

/// Approximate geographic centroids of countries by their codes: latitude and
/// longitude in hundredths of a degree.
pub const COUNTRY_CODE_CENTROIDS: [(&'static str, i32, i32); 158] = [
    ("ad", 4255, 160),
    ("al", 4115, 2017),
    ("at", 4752, 1455),
    ("ba", 4417, 1779),
    ("be", 5050, 447),
    ("bg", 4273, 2549),
    ("by", 5371, 2795),
    ("ch", 4682, 823),
    ("cz", 4982, 1547),
    ("de", 5117, 1045),
    ("dk", 5626, 950),
    ("ee", 5860, 2501),
    ("es", 4046, -375),
    ("fi", 6192, 2575),
    ("fr", 4623, 221),
    ("gb", 5400, -200),
    ("gr", 3907, 2182),
    ("hr", 4510, 1520),
    ("hu", 4716, 1950),
    ("ie", 5341, -824),
    ("is", 6496, -1902),
    ("it", 4187, 1257),
    ("li", 4714, 955),
    ("lt", 5517, 2388),
    ("lu", 4982, 613),
    ("lv", 5688, 2460),
    ("md", 4741, 2837),
    ("me", 4271, 1937),
    ("mk", 4161, 2175),
    ("mt", 3594, 1438),
    ("nl", 5213, 529),
    ("no", 6047, 847),
    ("pl", 5192, 1913),
    ("pt", 3940, -822),
    ("ro", 4594, 2497),
    ("rs", 4402, 2101),
    ("se", 6013, 1864),
    ("si", 4615, 1499),
    ("sk", 4867, 1970),
    ("ua", 4838, 3118),
    ("va", 4190, 1245),
    ("ae", 2342, 5385),
    ("af", 3394, 6771),
    ("am", 4007, 4504),
    ("ao", -1120, 1787),
    ("ar", -3842, -6362),
    ("au", -2527, 13378),
    ("az", 4014, 4758),
    ("bd", 2368, 9036),
    ("bo", -1629, -6359),
    ("br", -1424, -5318),
    ("bt", 2751, 9043),
    ("bw", -2233, 2468),
    ("ca", 5613, -10635),
    ("cd", -404, 2176),
    ("cf", 661, 2094),
    ("cg", -23, 1583),
    ("cl", -3568, -7154),
    ("cm", 737, 1235),
    ("cn", 3586, 10419),
    ("co", 457, -7430),
    ("cr", 975, -8375),
    ("cu", 2152, -7778),
    ("cy", 3513, 3343),
    ("dj", 1183, 4259),
    ("do", 1874, -7016),
    ("dz", 2803, 166),
    ("ec", -183, -7818),
    ("eg", 2682, 3080),
    ("er", 1518, 3978),
    ("et", 915, 4049),
    ("fj", -1771, 17807),
    ("ga", -80, 1161),
    ("gh", 795, -102),
    ("gl", 7171, -4260),
    ("gm", 1344, -1531),
    ("gn", 995, -970),
    ("gq", 165, 1027),
    ("gt", 1578, -9023),
    ("gy", 486, -5893),
    ("hn", 1520, -8624),
    ("ht", 1897, -7229),
    ("id", -79, 11392),
    ("il", 3105, 3485),
    ("in", 2059, 7896),
    ("iq", 3322, 4368),
    ("ir", 3243, 5369),
    ("jm", 1811, -7730),
    ("jo", 3059, 3624),
    ("jp", 3620, 13825),
    ("ke", -2, 3791),
    ("kg", 4120, 7477),
    ("kh", 1257, 10499),
    ("kp", 4034, 12751),
    ("kr", 3591, 12777),
    ("kz", 4802, 6692),
    ("la", 1986, 10250),
    ("lb", 3385, 3586),
    ("lk", 787, 8077),
    ("lr", 643, -943),
    ("ls", -2961, 2823),
    ("ly", 2634, 1723),
    ("ma", 3179, -709),
    ("mg", -1877, 4687),
    ("ml", 1757, -399),
    ("mm", 2191, 9596),
    ("mn", 4686, 10385),
    ("mr", 2101, -1094),
    ("mw", -1325, 3430),
    ("mx", 2363, -10255),
    ("my", 421, 10198),
    ("mz", -1867, 3553),
    ("na", -2296, 1849),
    ("ne", 1761, 808),
    ("ng", 908, 868),
    ("ni", 1287, -8521),
    ("np", 2839, 8412),
    ("nz", -4090, 17489),
    ("om", 2151, 5592),
    ("pa", 854, -8078),
    ("pe", -919, -7502),
    ("pg", -631, 14396),
    ("ph", 1288, 12177),
    ("pk", 3038, 6935),
    ("pr", 1822, -6659),
    ("ps", 3195, 3523),
    ("py", -2344, -5844),
    ("qa", 2535, 5118),
    ("ru", 6152, 10532),
    ("sa", 2389, 4508),
    ("sb", -965, 16016),
    ("sd", 1286, 3022),
    ("sn", 1450, -1445),
    ("so", 515, 4620),
    ("sr", 392, -5602),
    ("ss", 688, 3131),
    ("sv", 1379, -8890),
    ("sy", 3480, 3899),
    ("sz", -2652, 3147),
    ("td", 1545, 1873),
    ("tg", 862, 82),
    ("th", 1587, 10099),
    ("tj", 3886, 7128),
    ("tl", -887, 12573),
    ("tn", 3389, 956),
    ("tr", 3896, 3524),
    ("tz", -637, 3489),
    ("ug", 137, 3229),
    ("us", 3709, -9571),
    ("uy", -3252, -5577),
    ("uz", 4138, 6459),
    ("ve", 642, -6659),
    ("vn", 1406, 10828),
    ("ws", -1376, -17210),
    ("ye", 1555, 4852),
    ("za", -3056, 2294),
    ("zm", -1313, 2785),
    ("zw", -1902, 2915),
];

/// Human-readable country names by code.
pub const COUNTRY_CODE_NAMES: [(&'static str, &'static str); 158] = [
    ("ad", "Andorra"),
    ("ae", "United Arab Emirates"),
    ("af", "Afghanistan"),
    ("al", "Albania"),
    ("am", "Armenia"),
    ("ao", "Angola"),
    ("ar", "Argentina"),
    ("at", "Austria"),
    ("au", "Australia"),
    ("az", "Azerbaijan"),
    ("ba", "Bosnia and Herzegovina"),
    ("bd", "Bangladesh"),
    ("be", "Belgium"),
    ("bg", "Bulgaria"),
    ("bo", "Bolivia"),
    ("br", "Brazil"),
    ("bt", "Bhutan"),
    ("bw", "Botswana"),
    ("by", "Belarus"),
    ("ca", "Canada"),
    ("cd", "DR Congo"),
    ("cf", "Central African Republic"),
    ("cg", "Republic of the Congo"),
    ("ch", "Switzerland"),
    ("cl", "Chile"),
    ("cm", "Cameroon"),
    ("cn", "China"),
    ("co", "Colombia"),
    ("cr", "Costa Rica"),
    ("cu", "Cuba"),
    ("cy", "Cyprus"),
    ("cz", "Czech Republic"),
    ("de", "Germany"),
    ("dk", "Denmark"),
    ("dj", "Djibouti"),
    ("do", "Dominican Republic"),
    ("dz", "Algeria"),
    ("ec", "Ecuador"),
    ("ee", "Estonia"),
    ("eg", "Egypt"),
    ("er", "Eritrea"),
    ("es", "Spain"),
    ("et", "Ethiopia"),
    ("fi", "Finland"),
    ("fj", "Fiji"),
    ("fr", "France"),
    ("ga", "Gabon"),
    ("gb", "United Kingdom"),
    ("gh", "Ghana"),
    ("gl", "Greenland"),
    ("gm", "Gambia"),
    ("gn", "Guinea"),
    ("gq", "Equatorial Guinea"),
    ("gr", "Greece"),
    ("gt", "Guatemala"),
    ("gy", "Guyana"),
    ("hn", "Honduras"),
    ("hr", "Croatia"),
    ("ht", "Haiti"),
    ("hu", "Hungary"),
    ("id", "Indonesia"),
    ("ie", "Ireland"),
    ("il", "Israel"),
    ("in", "India"),
    ("iq", "Iraq"),
    ("ir", "Iran"),
    ("is", "Iceland"),
    ("it", "Italy"),
    ("jm", "Jamaica"),
    ("jo", "Jordan"),
    ("jp", "Japan"),
    ("ke", "Kenya"),
    ("kg", "Kyrgyzstan"),
    ("kh", "Cambodia"),
    ("kp", "North Korea"),
    ("kr", "South Korea"),
    ("kz", "Kazakhstan"),
    ("la", "Laos"),
    ("lb", "Lebanon"),
    ("li", "Liechtenstein"),
    ("lk", "Sri Lanka"),
    ("lr", "Liberia"),
    ("ls", "Lesotho"),
    ("lt", "Lithuania"),
    ("lu", "Luxembourg"),
    ("lv", "Latvia"),
    ("ly", "Libya"),
    ("ma", "Morocco"),
    ("md", "Moldova"),
    ("me", "Montenegro"),
    ("mg", "Madagascar"),
    ("mk", "North Macedonia"),
    ("ml", "Mali"),
    ("mm", "Myanmar"),
    ("mn", "Mongolia"),
    ("mr", "Mauritania"),
    ("mt", "Malta"),
    ("mw", "Malawi"),
    ("mx", "Mexico"),
    ("my", "Malaysia"),
    ("mz", "Mozambique"),
    ("na", "Namibia"),
    ("ne", "Niger"),
    ("ng", "Nigeria"),
    ("ni", "Nicaragua"),
    ("nl", "Netherlands"),
    ("no", "Norway"),
    ("np", "Nepal"),
    ("nz", "New Zealand"),
    ("om", "Oman"),
    ("pa", "Panama"),
    ("pe", "Peru"),
    ("pg", "Papua New Guinea"),
    ("ph", "Philippines"),
    ("pk", "Pakistan"),
    ("pl", "Poland"),
    ("pr", "Puerto Rico"),
    ("ps", "Palestine"),
    ("pt", "Portugal"),
    ("py", "Paraguay"),
    ("qa", "Qatar"),
    ("ro", "Romania"),
    ("rs", "Serbia"),
    ("ru", "Russia"),
    ("sa", "Saudi Arabia"),
    ("sb", "Solomon Islands"),
    ("sd", "Sudan"),
    ("se", "Sweden"),
    ("si", "Slovenia"),
    ("sk", "Slovakia"),
    ("sn", "Senegal"),
    ("so", "Somalia"),
    ("sr", "Suriname"),
    ("ss", "South Sudan"),
    ("sv", "El Salvador"),
    ("sy", "Syria"),
    ("sz", "Eswatini"),
    ("td", "Chad"),
    ("tg", "Togo"),
    ("th", "Thailand"),
    ("tj", "Tajikistan"),
    ("tl", "Timor-Leste"),
    ("tn", "Tunisia"),
    ("tr", "Turkey"),
    ("tz", "Tanzania"),
    ("ua", "Ukraine"),
    ("ug", "Uganda"),
    ("us", "United States"),
    ("uy", "Uruguay"),
    ("uz", "Uzbekistan"),
    ("va", "Vatican City"),
    ("ve", "Venezuela"),
    ("vn", "Vietnam"),
    ("ws", "Samoa"),
    ("ye", "Yemen"),
    ("za", "South Africa"),
    ("zm", "Zambia"),
    ("zw", "Zimbabwe"),
];

/// A country label on the map.
#[derive(Debug)]
pub struct MapLabel {
    pub name: String,
    /// Latitude in hundredths of a degree.
    pub lat: i32,
    /// Longitude in hundredths of a degree.
    pub lon: i32,
    /// Importance hint for label visibility (larger = more important).
    pub font_size: u32,
}

/// Whether entry `i` of the table of names is the first one with a code.
pub open spec fn names_code(code: Seq<char>, i: int) -> bool {
    &&& 0 <= i < COUNTRY_CODE_NAMES@.len()
    &&& COUNTRY_CODE_NAMES@[i].0@ == code
    &&& forall|k: int| 0 <= k < i ==> (#[trigger] COUNTRY_CODE_NAMES@[k]).0@ != code
}

/// The name of the country with a code, if the table holds it.
pub open spec fn country_name(code: Seq<char>) -> Option<Seq<char>> {
    if exists|i: int| names_code(code, i) {
        Some(COUNTRY_CODE_NAMES@[choose|i: int| names_code(code, i)].1@)
    } else {
        None
    }
}

/// Finds the name of the country with a code.
pub fn country_code_name(code: &str) -> (name: Option<&'static str>)
    ensures
        match name {
            Some(n) => country_name(code@) == Some(n@),
            None => country_name(code@) is None,
        },
{
    let mut i: usize = 0;
    while i < COUNTRY_CODE_NAMES.len()
        invariant
            i <= COUNTRY_CODE_NAMES@.len(),
            forall|k: int| 0 <= k < i ==> (#[trigger] COUNTRY_CODE_NAMES@[k]).0@ != code@,
        decreases COUNTRY_CODE_NAMES@.len() - i,
    {
        let (key, name) = COUNTRY_CODE_NAMES[i];
        if text::same_text(key, code) {
            proof {
                assert(names_code(code@, i as int));
                let j = choose|j: int| names_code(code@, j);
                assert(names_code(code@, j));
                if i < j {
                    assert(COUNTRY_CODE_NAMES@[i as int].0@ != code@);
                }
                if j < i {
                    assert(COUNTRY_CODE_NAMES@[j].0@ != code@);
                }
            }
            return Some(name);
        }
        i = i + 1;
    }
    proof {
        assert forall|j: int| !names_code(code@, j) by {
            if names_code(code@, j) {
                assert(COUNTRY_CODE_NAMES@[j].0@ != code@);
            }
        }
    }
    None
}

/// What a country is called on the map: its name, or its code in capitals.
pub open spec fn label_name(code: Seq<char>) -> Seq<char> {
    match country_name(code) {
        Some(name) => name,
        None => text::upper(code),
    }
}

/// The size hint of all labels.
pub const LABEL_FONT_SIZE: u32 = 12;

/// The country labels, in the order of the table of centroids.
pub fn vector_country_labels() -> (labels: Vec<MapLabel>)
    ensures
        labels@.len() == COUNTRY_CODE_CENTROIDS@.len(),
        forall|i: int|
            0 <= i < labels@.len() ==> {
                let (code, lat, lon) = COUNTRY_CODE_CENTROIDS@[i];
                &&& (#[trigger] labels@[i]).name@ == label_name(code@)
                &&& labels@[i].lat == lat
                &&& labels@[i].lon == lon
                &&& labels@[i].font_size == LABEL_FONT_SIZE
                &&& label_parts(labels@[i]) == country_label(COUNTRY_CODE_CENTROIDS@[i])
            },
{
    let mut labels: Vec<MapLabel> = Vec::new();
    let mut i: usize = 0;
    while i < COUNTRY_CODE_CENTROIDS.len()
        invariant
            i <= COUNTRY_CODE_CENTROIDS@.len(),
            labels@.len() == i,
            forall|k: int|
                0 <= k < i ==> {
                    let (code, lat, lon) = COUNTRY_CODE_CENTROIDS@[k];
                    &&& (#[trigger] labels@[k]).name@ == label_name(code@)
                    &&& labels@[k].lat == lat
                    &&& labels@[k].lon == lon
                    &&& labels@[k].font_size == LABEL_FONT_SIZE
                },
        decreases COUNTRY_CODE_CENTROIDS@.len() - i,
    {
        let (code, lat, lon) = COUNTRY_CODE_CENTROIDS[i];
        let name: String = match country_code_name(code) {
            Some(name) => name.to_owned(),
            None => text::to_upper(code),
        };
        labels.push(MapLabel { name, lat, lon, font_size: LABEL_FONT_SIZE });
        i = i + 1;
    }
    labels
}

/// Every label stands on the globe.
pub proof fn labels_are_on_the_globe(i: int)
    requires
        0 <= i < COUNTRY_CODE_CENTROIDS@.len(),
    ensures
        -9_000 <= COUNTRY_CODE_CENTROIDS@[i].1 <= 9_000,
        -18_000 <= COUNTRY_CODE_CENTROIDS@[i].2 <= 18_000,
{
}

/// A country is called by the first name that the table has for its code, and
/// by the code in capitals where it has none.
pub proof fn labels_are_the_first_names(code: Seq<char>, i: int)
    requires
        0 <= i < COUNTRY_CODE_NAMES@.len(),
        COUNTRY_CODE_NAMES@[i].0@ == code,
        forall|k: int| 0 <= k < i ==> (#[trigger] COUNTRY_CODE_NAMES@[k]).0@ != code,
    ensures
        country_name(code) == Some(COUNTRY_CODE_NAMES@[i].1@),
        label_name(code) == COUNTRY_CODE_NAMES@[i].1@,
{
    assert(names_code(code, i));
    let j = choose|j: int| names_code(code, j);
    if j < i {
        assert(COUNTRY_CODE_NAMES@[j].0@ != code);
    }
    if i < j {
        assert(COUNTRY_CODE_NAMES@[i].0@ != code);
    }
}

/// A code that the table does not have stands for itself, in capitals.
pub proof fn unknown_codes_are_shown(code: Seq<char>)
    requires
        forall|k: int|
            0 <= k < COUNTRY_CODE_NAMES@.len() ==> (#[trigger] COUNTRY_CODE_NAMES@[k]).0@ != code,
    ensures
        country_name(code) is None,
        label_name(code) == text::upper(code),
{
    assert forall|i: int| !names_code(code, i) by {
        if names_code(code, i) {
            assert(COUNTRY_CODE_NAMES@[i].0@ != code);
        }
    }
}

/// The name, the place and the size hint of a label.
pub open spec fn label_parts(label: MapLabel) -> (Seq<char>, i32, i32, u32) {
    (label.name@, label.lat, label.lon, label.font_size)
}

/// The label of a country whose code and centroid the table gives.
pub open spec fn country_label(entry: (&'static str, i32, i32)) -> (Seq<char>, i32, i32, u32) {
    (label_name(entry.0@), entry.1, entry.2, LABEL_FONT_SIZE)
}

/// A label stands at the centroid of its country, the latitude first; all
/// labels have the same size hint.
pub proof fn labels_stand_at_their_centroid(code: &'static str, lat: i32, lon: i32)
    ensures
        country_label((code, lat, lon)).0 == label_name(code@),
        country_label((code, lat, lon)).1 == lat,
        country_label((code, lat, lon)).2 == lon,
        country_label((code, lat, lon)).3 == 12,
{
}

/// The parts of a label are its own.
pub proof fn parts_of_a_label(label: MapLabel)
    ensures
        label_parts(label).0 == label.name@,
        label_parts(label).1 == label.lat && label_parts(label).2 == label.lon,
        label_parts(label).3 == label.font_size,
{
}

} // verus!
