//! The plane rectangular coordinate systems of Japan, the datums that heights
//! and positions refer to, and the names under which documents cite them.

use vstd::prelude::*;

use crate::error::LandXMLError;
use crate::text::{
    begins_with, capture_group, is_white_space, decimal, decimal_string, joined, parse_small_number,
    regex_accepts, regex_group, same_text, small_number, trim, trimmed,
    view_of,
};

verus! {

/// One of the nineteen zones of the Japanese plane rectangular coordinate
/// system.
#[derive(Debug, Clone, Copy, PartialEq, Eq, Hash, Structural)]
pub enum JapanPlaneCoordinateSystem {
    /// 長崎県、鹿児島県の一部（東経129°30'、北緯33°）
    Zone1,
    /// 福岡、佐賀、熊本、大分、宮崎県（東経131°、北緯33°）
    Zone2,
    /// 山口、島根、広島県（東経132°10'、北緯34°20'）
    Zone3,
    /// 香川、愛媛、徳島、高知県（東経133°30'、北緯33°）
    Zone4,
    /// 兵庫、鳥取、岡山県（東経134°20'、北緯34°40'）
    Zone5,
    /// 京都、大阪、福井、滋賀、三重、奈良、和歌山県（東経136°、北緯36°）
    Zone6,
    /// 石川、富山、岐阜、愛知県（東経137°10'、北緯36°）
    Zone7,
    /// 新潟、長野、山梨、静岡県（東経138°30'、北緯36°）
    Zone8,
    /// 東京都、福島、栃木、茨城、埼玉、千葉、群馬、神奈川県（東経139°50'、北緯36°）
    Zone9,
    /// 青森、秋田、山形、岩手、宮城県（東経140°50'、北緯40°）
    Zone10,
    /// 小笠原諸島（東経142°15'、北緯26°）
    Zone11,
    /// 北海道西部（東経142°15'、北緯44°）
    Zone12,
    /// 北海道中央部（東経144°15'、北緯44°）
    Zone13,
    /// 北海道東部（東経142°、北緯26°）
    Zone14,
    /// 沖縄県（東経127°30'、北緯26°）
    Zone15,
    /// 沖縄県（東経124°、北緯26°）
    Zone16,
    /// 沖縄県（東経131°、北緯26°）
    Zone17,
    /// 沖縄県（東経136°、北緯20°）
    Zone18,
    /// 南鳥島、沖ノ鳥島（東経154°、北緯26°）
    Zone19,
}

impl JapanPlaneCoordinateSystem {
    /// The number of the zone, from 1 to 19.
    pub open spec fn number(self) -> nat {
        match self {
            Self::Zone1 => 1,
            Self::Zone2 => 2,
            Self::Zone3 => 3,
            Self::Zone4 => 4,
            Self::Zone5 => 5,
            Self::Zone6 => 6,
            Self::Zone7 => 7,
            Self::Zone8 => 8,
            Self::Zone9 => 9,
            Self::Zone10 => 10,
            Self::Zone11 => 11,
            Self::Zone12 => 12,
            Self::Zone13 => 13,
            Self::Zone14 => 14,
            Self::Zone15 => 15,
            Self::Zone16 => 16,
            Self::Zone17 => 17,
            Self::Zone18 => 18,
            Self::Zone19 => 19,
        }
    }

    /// The zone that has the given number.
    pub open spec fn of_number(number: nat) -> Option<Self> {
        if number == 1 {
            Some(Self::Zone1)
        } else if number == 2 {
            Some(Self::Zone2)
        } else if number == 3 {
            Some(Self::Zone3)
        } else if number == 4 {
            Some(Self::Zone4)
        } else if number == 5 {
            Some(Self::Zone5)
        } else if number == 6 {
            Some(Self::Zone6)
        } else if number == 7 {
            Some(Self::Zone7)
        } else if number == 8 {
            Some(Self::Zone8)
        } else if number == 9 {
            Some(Self::Zone9)
        } else if number == 10 {
            Some(Self::Zone10)
        } else if number == 11 {
            Some(Self::Zone11)
        } else if number == 12 {
            Some(Self::Zone12)
        } else if number == 13 {
            Some(Self::Zone13)
        } else if number == 14 {
            Some(Self::Zone14)
        } else if number == 15 {
            Some(Self::Zone15)
        } else if number == 16 {
            Some(Self::Zone16)
        } else if number == 17 {
            Some(Self::Zone17)
        } else if number == 18 {
            Some(Self::Zone18)
        } else if number == 19 {
            Some(Self::Zone19)
        } else {
            None
        }
    }

    /// The region that the zone covers, in words.
    pub open spec fn region(self) -> Seq<char> {
        match self {
            Self::Zone1 => "長崎県、鹿児島県の一部"@,
            Self::Zone2 => "福岡、佐賀、熊本、大分、宮崎県"@,
            Self::Zone3 => "山口、島根、広島県"@,
            Self::Zone4 => "香川、愛媛、徳島、高知県"@,
            Self::Zone5 => "兵庫、鳥取、岡山県"@,
            Self::Zone6 => "京都、大阪、福井、滋賀、三重、奈良、和歌山県"@,
            Self::Zone7 => "石川、富山、岐阜、愛知県"@,
            Self::Zone8 => "新潟、長野、山梨、静岡県"@,
            Self::Zone9 => "東京都、福島、栃木、茨城、埼玉、千葉、群馬、神奈川県"@,
            Self::Zone10 => "青森、秋田、山形、岩手、宮城県"@,
            Self::Zone11 => "小笠原諸島"@,
            Self::Zone12 => "北海道西部"@,
            Self::Zone13 => "北海道中央部"@,
            Self::Zone14 => "北海道東部"@,
            Self::Zone15 => "沖縄県（本島周辺）"@,
            Self::Zone16 => "沖縄県（宮古島周辺）"@,
            Self::Zone17 => "沖縄県（石垣島周辺）"@,
            Self::Zone18 => "沖縄県（与那国島周辺）"@,
            Self::Zone19 => "南鳥島、沖ノ鳥島"@,
        }
    }

    /// What `to_string` writes: the number of the zone and its EPSG code.
    pub open spec fn label(self) -> Seq<char> {
        "平面直角座標系"@ + decimal(self.number()) + "系 (EPSG:"@ + decimal(6668 + self.number())
            + ")"@
    }

    /// The EPSG code of the zone in JGD2011: 6669 for the first zone, and one
    /// more for each zone after it.
    pub fn epsg_code(&self) -> (code: u32)
        ensures
            code == 6668 + self.number(),
    {
        match self {
            Self::Zone1 => 6669,
            Self::Zone2 => 6670,
            Self::Zone3 => 6671,
            Self::Zone4 => 6672,
            Self::Zone5 => 6673,
            Self::Zone6 => 6674,
            Self::Zone7 => 6675,
            Self::Zone8 => 6676,
            Self::Zone9 => 6677,
            Self::Zone10 => 6678,
            Self::Zone11 => 6679,
            Self::Zone12 => 6680,
            Self::Zone13 => 6681,
            Self::Zone14 => 6682,
            Self::Zone15 => 6683,
            Self::Zone16 => 6684,
            Self::Zone17 => 6685,
            Self::Zone18 => 6686,
            Self::Zone19 => 6687,
        }
    }

    /// The number of the zone.
    pub fn zone_number(&self) -> (number: u8)
        ensures
            number == self.number(),
            1 <= number <= 19,
    {
        match self {
            Self::Zone1 => 1,
            Self::Zone2 => 2,
            Self::Zone3 => 3,
            Self::Zone4 => 4,
            Self::Zone5 => 5,
            Self::Zone6 => 6,
            Self::Zone7 => 7,
            Self::Zone8 => 8,
            Self::Zone9 => 9,
            Self::Zone10 => 10,
            Self::Zone11 => 11,
            Self::Zone12 => 12,
            Self::Zone13 => 13,
            Self::Zone14 => 14,
            Self::Zone15 => 15,
            Self::Zone16 => 16,
            Self::Zone17 => 17,
            Self::Zone18 => 18,
            Self::Zone19 => 19,
        }
    }

    /// The region that the zone covers.
    pub fn description(&self) -> (text: &'static str)
        ensures
            text@ == self.region(),
    {
        match self {
            Self::Zone1 => "長崎県、鹿児島県の一部",
            Self::Zone2 => "福岡、佐賀、熊本、大分、宮崎県",
            Self::Zone3 => "山口、島根、広島県",
            Self::Zone4 => "香川、愛媛、徳島、高知県",
            Self::Zone5 => "兵庫、鳥取、岡山県",
            Self::Zone6 => "京都、大阪、福井、滋賀、三重、奈良、和歌山県",
            Self::Zone7 => "石川、富山、岐阜、愛知県",
            Self::Zone8 => "新潟、長野、山梨、静岡県",
            Self::Zone9 => "東京都、福島、栃木、茨城、埼玉、千葉、群馬、神奈川県",
            Self::Zone10 => "青森、秋田、山形、岩手、宮城県",
            Self::Zone11 => "小笠原諸島",
            Self::Zone12 => "北海道西部",
            Self::Zone13 => "北海道中央部",
            Self::Zone14 => "北海道東部",
            Self::Zone15 => "沖縄県（本島周辺）",
            Self::Zone16 => "沖縄県（宮古島周辺）",
            Self::Zone17 => "沖縄県（石垣島周辺）",
            Self::Zone18 => "沖縄県（与那国島周辺）",
            Self::Zone19 => "南鳥島、沖ノ鳥島",
        }
    }

    /// The zone with the given number. A number outside 1 to 19 is an error
    /// whose text names the number.
    pub fn from_zone_number(zone: u8) -> (found: Result<Self, LandXMLError>)
        ensures
            match Self::of_number(zone as nat) {
                Some(named) => found == Ok::<Self, LandXMLError>(named),
                None => found matches Err(LandXMLError::InvalidCoordinateSystem(message))
                    && message@ == "Unsupported plane coordinate zone: "@ + decimal(zone as nat),
            },
    {
        match zone {
            1 => Ok(Self::Zone1),
            2 => Ok(Self::Zone2),
            3 => Ok(Self::Zone3),
            4 => Ok(Self::Zone4),
            5 => Ok(Self::Zone5),
            6 => Ok(Self::Zone6),
            7 => Ok(Self::Zone7),
            8 => Ok(Self::Zone8),
            9 => Ok(Self::Zone9),
            10 => Ok(Self::Zone10),
            11 => Ok(Self::Zone11),
            12 => Ok(Self::Zone12),
            13 => Ok(Self::Zone13),
            14 => Ok(Self::Zone14),
            15 => Ok(Self::Zone15),
            16 => Ok(Self::Zone16),
            17 => Ok(Self::Zone17),
            18 => Ok(Self::Zone18),
            19 => Ok(Self::Zone19),
            _ => {
                let number = decimal_string(zone as u64);
                Err(
                    LandXMLError::InvalidCoordinateSystem(
                        joined("Unsupported plane coordinate zone: ", number.as_str()),
                    ),
                )
            },
        }
    }

    /// All zones, from the first to the nineteenth.
    pub fn all_zones() -> (zones: Vec<Self>)
        ensures
            zones@.len() == 19,
            forall|i: int| 0 <= i < 19 ==> (#[trigger] zones@[i]).number() == i + 1,
    {
        vec![
            Self::Zone1,
            Self::Zone2,
            Self::Zone3,
            Self::Zone4,
            Self::Zone5,
            Self::Zone6,
            Self::Zone7,
            Self::Zone8,
            Self::Zone9,
            Self::Zone10,
            Self::Zone11,
            Self::Zone12,
            Self::Zone13,
            Self::Zone14,
            Self::Zone15,
            Self::Zone16,
            Self::Zone17,
            Self::Zone18,
            Self::Zone19,
        ]
    }

    /// The zone written out, with its number and its EPSG code.
    pub fn to_string(&self) -> (text: String)
        ensures
            text@ == self.label(),
    {
        let mut text = String::from_str("平面直角座標系");
        let number = decimal_string(self.zone_number() as u64);
        text.append(number.as_str());
        text.append("系 (EPSG:");
        let code = decimal_string(self.epsg_code() as u64);
        text.append(code.as_str());
        text.append(")");
        text
    }
}

/// The geodetic datum that horizontal positions refer to.
#[derive(Debug, Clone, Copy, PartialEq, Eq, Hash, Structural)]
pub enum HorizontalDatum {
    /// Japanese Geodetic Datum 2000, on the GRS80 ellipsoid.
    JGD2000,
    /// Japanese Geodetic Datum 2011, surveyed again after the earthquake of 2011.
    JGD2011,
    /// Tokyo Datum, on the Bessel ellipsoid.
    TD,
}

impl HorizontalDatum {
    /// The name under which documents cite the datum.
    pub open spec fn name(self) -> Seq<char> {
        match self {
            Self::JGD2000 => "JGD2000"@,
            Self::JGD2011 => "JGD2011"@,
            Self::TD => "TD"@,
        }
    }

    /// The datum that a name cites.
    pub open spec fn named(name: Seq<char>) -> Option<Self> {
        if name == "JGD2000"@ {
            Some(Self::JGD2000)
        } else if name == "JGD2011"@ {
            Some(Self::JGD2011)
        } else if name == "TD"@ {
            Some(Self::TD)
        } else {
            None
        }
    }

    /// What the datum is, in words.
    pub open spec fn meaning(self) -> Seq<char> {
        match self {
            Self::JGD2000 => "日本測地系2000（GRS80楕円体）"@,
            Self::JGD2011 => "日本測地系2011（東日本大震災後対応）"@,
            Self::TD => "旧日本測地系（Tokyo Datum、Bessel楕円体）"@,
        }
    }

    /// The name under which documents cite the datum.
    pub fn as_str(&self) -> (name: &'static str)
        ensures
            name@ == self.name(),
    {
        match self {
            Self::JGD2000 => "JGD2000",
            Self::JGD2011 => "JGD2011",
            Self::TD => "TD",
        }
    }

    /// The datum that `text` cites once the white space at its ends is taken
    /// off. Any other text is an error that quotes the text as it was given.
    pub fn from_str(text: &str) -> (found: Result<Self, LandXMLError>)
        ensures
            match Self::named(trimmed(text@)) {
                Some(datum) => found == Ok::<Self, LandXMLError>(datum),
                None => found matches Err(LandXMLError::InvalidCoordinateSystem(message))
                    && message@ == "Unsupported horizontal datum: "@ + text@,
            },
    {
        let name = trim(text);
        if same_text(name, "JGD2000") {
            Ok(Self::JGD2000)
        } else if same_text(name, "JGD2011") {
            Ok(Self::JGD2011)
        } else if same_text(name, "TD") {
            Ok(Self::TD)
        } else {
            Err(LandXMLError::InvalidCoordinateSystem(joined("Unsupported horizontal datum: ", text)))
        }
    }

    /// What the datum is, in words.
    pub fn description(&self) -> (text: &'static str)
        ensures
            text@ == self.meaning(),
    {
        match self {
            Self::JGD2000 => "日本測地系2000（GRS80楕円体）",
            Self::JGD2011 => "日本測地系2011（東日本大震災後対応）",
            Self::TD => "旧日本測地系（Tokyo Datum、Bessel楕円体）",
        }
    }

    /// The name of the datum, and in brackets what it is.
    pub fn to_string(&self) -> (text: String)
        ensures
            text@ == self.name() + " ("@ + self.meaning() + ")"@,
    {
        let mut text = String::from_str(self.as_str());
        text.append(" (");
        text.append(self.description());
        text.append(")");
        text
    }
}

/// The level that heights refer to.
#[derive(Debug, Clone, Copy, PartialEq, Eq, Hash, Structural)]
pub enum VerticalDatum {
    /// Mean sea level of Tokyo Bay, to which all other levels are referred.
    TP,
    /// Datum of the Kitakami river.
    KP,
    /// Datum of the Naruse river.
    SP,
    /// Datum of the Tone river.
    YP,
    /// Datum of the Arakawa river.
    AP,
    /// Datum of the Yodo river.
    OP,
    /// Datum of the Watari river.
    TPW,
    /// Water level of Lake Biwa.
    BSL,
}

impl VerticalDatum {
    /// The name under which documents cite the datum.
    pub open spec fn name(self) -> Seq<char> {
        match self {
            Self::TP => "T.P"@,
            Self::KP => "K.P"@,
            Self::SP => "S.P"@,
            Self::YP => "Y.P"@,
            Self::AP => "A.P"@,
            Self::OP => "O.P"@,
            Self::TPW => "T.P.W"@,
            Self::BSL => "B.S.L"@,
        }
    }

    /// The datum that a name cites.
    pub open spec fn named(name: Seq<char>) -> Option<Self> {
        if name == "T.P"@ {
            Some(Self::TP)
        } else if name == "K.P"@ {
            Some(Self::KP)
        } else if name == "S.P"@ {
            Some(Self::SP)
        } else if name == "Y.P"@ {
            Some(Self::YP)
        } else if name == "A.P"@ {
            Some(Self::AP)
        } else if name == "O.P"@ {
            Some(Self::OP)
        } else if name == "T.P.W"@ {
            Some(Self::TPW)
        } else if name == "B.S.L"@ {
            Some(Self::BSL)
        } else {
            None
        }
    }

    /// The water that the datum is taken from, in words.
    pub open spec fn meaning(self) -> Seq<char> {
        match self {
            Self::TP => "東京湾平均海面（Tokyo Peil）"@,
            Self::KP => "北上川（Kitakami Peil）"@,
            Self::SP => "鳴瀬川（Same Peil）"@,
            Self::YP => "利根川（Tone Peil）"@,
            Self::AP => "荒川・中川・多摩川（Arakawa Peil）"@,
            Self::OP => "淀川（Osaka Peil）"@,
            Self::TPW => "渡川（Tosa Peil Watarigawa）"@,
            Self::BSL => "琵琶湖（Biwa Surface Level）"@,
        }
    }

    /// How far the zero of the datum lies above the mean sea level of Tokyo Bay,
    /// in tenths of a millimetre.
    pub open spec fn offset(self) -> int {
        match self {
            Self::TP => 0,
            Self::KP => -8745,
            Self::SP => -873,
            Self::YP => -8402,
            Self::AP => -11344,
            Self::OP => -13000,
            Self::TPW => 1130,
            Self::BSL => 843710,
        }
    }

    /// The name under which documents cite the datum.
    pub fn as_str(&self) -> (name: &'static str)
        ensures
            name@ == self.name(),
    {
        match self {
            Self::TP => "T.P",
            Self::KP => "K.P",
            Self::SP => "S.P",
            Self::YP => "Y.P",
            Self::AP => "A.P",
            Self::OP => "O.P",
            Self::TPW => "T.P.W",
            Self::BSL => "B.S.L",
        }
    }

    /// The datum that `text` cites once the white space at its ends is taken
    /// off. Any other text is an error that quotes the text as it was given.
    pub fn from_str(text: &str) -> (found: Result<Self, LandXMLError>)
        ensures
            match Self::named(trimmed(text@)) {
                Some(datum) => found == Ok::<Self, LandXMLError>(datum),
                None => found matches Err(LandXMLError::InvalidCoordinateSystem(message))
                    && message@ == "Unsupported vertical datum: "@ + text@,
            },
    {
        let name = trim(text);
        if same_text(name, "T.P") {
            Ok(Self::TP)
        } else if same_text(name, "K.P") {
            Ok(Self::KP)
        } else if same_text(name, "S.P") {
            Ok(Self::SP)
        } else if same_text(name, "Y.P") {
            Ok(Self::YP)
        } else if same_text(name, "A.P") {
            Ok(Self::AP)
        } else if same_text(name, "O.P") {
            Ok(Self::OP)
        } else if same_text(name, "T.P.W") {
            Ok(Self::TPW)
        } else if same_text(name, "B.S.L") {
            Ok(Self::BSL)
        } else {
            Err(LandXMLError::InvalidCoordinateSystem(joined("Unsupported vertical datum: ", text)))
        }
    }

    /// How far the zero of the datum lies above the mean sea level of Tokyo Bay,
    /// in tenths of a millimetre: what has to be added to a height in this datum
    /// to refer it to Tokyo Bay.
    pub fn tp_offset(&self) -> (offset: i32)
        ensures
            offset == self.offset(),
    {
        match self {
            Self::TP => 0,
            Self::KP => -8745,
            Self::SP => -873,
            Self::YP => -8402,
            Self::AP => -11344,
            Self::OP => -13000,
            Self::TPW => 1130,
            Self::BSL => 843710,
        }
    }

    /// The water that the datum is taken from, in words.
    pub fn description(&self) -> (text: &'static str)
        ensures
            text@ == self.meaning(),
    {
        match self {
            Self::TP => "東京湾平均海面（Tokyo Peil）",
            Self::KP => "北上川（Kitakami Peil）",
            Self::SP => "鳴瀬川（Same Peil）",
            Self::YP => "利根川（Tone Peil）",
            Self::AP => "荒川・中川・多摩川（Arakawa Peil）",
            Self::OP => "淀川（Osaka Peil）",
            Self::TPW => "渡川（Tosa Peil Watarigawa）",
            Self::BSL => "琵琶湖（Biwa Surface Level）",
        }
    }

    /// The name of the datum, a dash, and the water it is taken from.
    pub fn to_string(&self) -> (text: String)
        ensures
            text@ == self.name() + " - "@ + self.meaning(),
    {
        let mut text = String::from_str(self.as_str());
        text.append(" - ");
        text.append(self.description());
        text
    }
}

/// How the offset that a document declares relates to the offset of its
/// vertical datum.
#[derive(Debug, Clone, Copy, PartialEq, Eq, Structural)]
pub enum DeclaredOffset {
    /// The document declares no offset.
    Absent,
    /// The declared offset is that of the datum, to within a millimetre.
    Agrees,
    /// The declared offset is off by more than a millimetre.
    Differs,
}

/// Something about a coordinate system that deserves a second look.
#[derive(Debug, Clone, Copy, PartialEq, Eq, Structural)]
pub enum ValidationWarning {
    /// The declared offset is not that of the vertical datum.
    DifferTpMismatch { vertical_datum: VerticalDatum },
    /// The vertical datum has an offset and the document declares none.
    MissingDifferTp { vertical_datum: VerticalDatum },
    /// Heights refer to Tokyo Bay and the document declares an offset all the
    /// same.
    UnnecessaryDifferTp,
    /// The horizontal datum is one that has been superseded.
    LegacyDatumUsage { datum: HorizontalDatum },
}

/// The pattern of a horizontal coordinate system name: one or two digits, then
/// `(X,Y)`, and nothing before or after.
pub open spec fn zone_name_pattern() -> Seq<char> {
    "^(\\d{1,2})\\(X,Y\\)$"@
}

/// Reads the names under which documents cite a zone.
pub struct CoordinateSystemMapper;

impl CoordinateSystemMapper {
    /// Whether `found` is what the digits in front of `(X,Y)` stand for: the
    /// zone of that number, nothing where no zone has that number or where the
    /// name did not fit the pattern, and an error where the digits are none that
    /// a number is written with. The error begins with `Invalid zone number: `
    /// and goes on with what the standard library says of the digits.
    pub open spec fn reads_digits(
        digits: Option<Seq<char>>,
        found: Result<Option<JapanPlaneCoordinateSystem>, LandXMLError>,
    ) -> bool {
        match digits {
            None => found == Ok::<Option<JapanPlaneCoordinateSystem>, LandXMLError>(None),
            Some(text) => match small_number(text) {
                Some(number) => found == Ok::<Option<JapanPlaneCoordinateSystem>, LandXMLError>(
                    JapanPlaneCoordinateSystem::of_number(number as nat),
                ),
                None => found matches Err(LandXMLError::ParseError(message)) && begins_with(
                    message@,
                    "Invalid zone number: "@,
                ),
            },
        }
    }

    /// Whether `found` is what `name` reads as: the white space at its ends is
    /// taken off, the rest is held against the pattern, and the digits that the
    /// pattern picks out are read as `reads_digits` says.
    pub open spec fn reads(
        name: Seq<char>,
        found: Result<Option<JapanPlaneCoordinateSystem>, LandXMLError>,
    ) -> bool {
        if regex_accepts(zone_name_pattern()) {
            Self::reads_digits(regex_group(zone_name_pattern(), trimmed(name), 1), found)
        } else {
            found matches Err(LandXMLError::ParseError(message)) && begins_with(
                message@,
                "Regex compilation failed: "@,
            )
        }
    }

    /// Whether `name` cannot be read at all: the pattern is refused, or the
    /// digits that it picks out are none that a number is written with.
    pub open spec fn unreadable(name: Seq<char>) -> bool {
        if regex_accepts(zone_name_pattern()) {
            regex_group(zone_name_pattern(), trimmed(name), 1) matches Some(text) && small_number(
                text,
            ) is None
        } else {
            true
        }
    }

    /// The zone that `name` cites, where it cites one.
    pub open spec fn zone_cited(name: Seq<char>) -> Option<JapanPlaneCoordinateSystem> {
        if regex_accepts(zone_name_pattern()) {
            match regex_group(zone_name_pattern(), trimmed(name), 1) {
                Some(text) => match small_number(text) {
                    Some(number) => JapanPlaneCoordinateSystem::of_number(number as nat),
                    None => None,
                },
                None => None,
            }
        } else {
            None
        }
    }

    /// The EPSG code of the zone that `name` cites, where it cites one.
    pub fn get_epsg_from_jlandxml_name(name: &str) -> (code: Option<u32>)
        ensures
            match Self::zone_cited(name@) {
                Some(zone) => code == Some((6668 + zone.number()) as u32),
                None => code is None,
            },
    {
        match Self::parse_horizontal_coordinate_system_name(name) {
            Ok(Some(zone)) => Some(zone.epsg_code()),
            _ => None,
        }
    }

    /// The zone that a horizontal coordinate system name cites, as `reads`
    /// defines it.
    pub fn parse_horizontal_coordinate_system_name(name: &str) -> (found: Result<
        Option<JapanPlaneCoordinateSystem>,
        LandXMLError,
    >)
        ensures
            Self::reads(name@, found),
            found matches Ok(zone) ==> zone == Self::zone_cited(name@),
            found is Err ==> Self::zone_cited(name@) is None,
    {
        let inner = trim(name);
        match capture_group("^(\\d{1,2})\\(X,Y\\)$", inner, 1) {
            Ok(digits) => Self::zone_from_digits(digits),
            Err(error) => {
                let reason = error.to_string();
                Err(
                    LandXMLError::ParseError(
                        joined("Regex compilation failed: ", reason.as_str()),
                    ),
                )
            },
        }
    }

    /// What the digits that the pattern picked out of a name stand for, as
    /// `reads_digits` defines it.
    pub fn zone_from_digits(digits: Option<String>) -> (found: Result<
        Option<JapanPlaneCoordinateSystem>,
        LandXMLError,
    >)
        ensures
            Self::reads_digits(view_of(digits), found),
    {
        match digits {
            None => Ok(None),
            Some(text) => match parse_small_number(text.as_str()) {
                Ok(number) => match JapanPlaneCoordinateSystem::from_zone_number(number) {
                    Ok(zone) => Ok(Some(zone)),
                    Err(_) => Ok(None),
                },
                Err(error) => {
                    let reason = error.to_string();
                    Err(
                        LandXMLError::ParseError(
                            joined("Invalid zone number: ", reason.as_str()),
                        ),
                    )
                },
            },
        }
    }

    /// Whether a horizontal datum may be used with a zone. Every datum may be
    /// used with every zone.
    pub fn validate_datum_compatibility(
        horizontal_datum: HorizontalDatum,
        _zone: JapanPlaneCoordinateSystem,
    ) -> (checked: Result<(), LandXMLError>)
        ensures
            checked is Ok,
    {
        Ok(())
    }

    /// Whether heights in a datum have to be shifted to refer to Tokyo Bay: they
    /// have to in every datum but `TP`.
    pub fn needs_tp_correction(vertical_datum: VerticalDatum) -> (needed: bool)
        ensures
            needed == (vertical_datum != VerticalDatum::TP),
    {
        match vertical_datum {
            VerticalDatum::TP => false,
            _ => true,
        }
    }
}

/// Looks at a coordinate system as a whole.
pub struct CoordinateSystemValidator;

impl CoordinateSystemValidator {
    /// The warnings that a coordinate system deserves, in the order in which
    /// they are raised: first what is wrong with the declared offset, then the
    /// use of a superseded datum.
    pub open spec fn warnings(
        horizontal_datum: HorizontalDatum,
        vertical_datum: VerticalDatum,
        declared: DeclaredOffset,
    ) -> Seq<ValidationWarning> {
        let about_offset = if vertical_datum != VerticalDatum::TP {
            match declared {
                DeclaredOffset::Differs => seq![
                    ValidationWarning::DifferTpMismatch { vertical_datum },
                ],
                DeclaredOffset::Agrees => Seq::empty(),
                DeclaredOffset::Absent => seq![
                    ValidationWarning::MissingDifferTp { vertical_datum },
                ],
            }
        } else if declared != DeclaredOffset::Absent {
            seq![ValidationWarning::UnnecessaryDifferTp]
        } else {
            Seq::empty()
        };
        let about_datum = if horizontal_datum == HorizontalDatum::TD {
            seq![ValidationWarning::LegacyDatumUsage { datum: horizontal_datum }]
        } else {
            Seq::empty()
        };
        about_offset + about_datum
    }

    /// Checks a coordinate system and collects the warnings it deserves. There
    /// is no combination that is refused.
    pub fn validate_complete_system(
        horizontal_datum: HorizontalDatum,
        vertical_datum: VerticalDatum,
        zone: JapanPlaneCoordinateSystem,
        declared: DeclaredOffset,
    ) -> (checked: Result<Vec<ValidationWarning>, LandXMLError>)
        ensures
            checked matches Ok(warnings) && warnings@ == Self::warnings(
                horizontal_datum,
                vertical_datum,
                declared,
            ),
    {
        let mut warnings: Vec<ValidationWarning> = Vec::new();
        match CoordinateSystemMapper::validate_datum_compatibility(horizontal_datum, zone) {
            Ok(()) => {},
            Err(error) => {
                return Err(error);
            },
        }
        if CoordinateSystemMapper::needs_tp_correction(vertical_datum) {
            match declared {
                DeclaredOffset::Differs => {
                    warnings.push(ValidationWarning::DifferTpMismatch { vertical_datum });
                },
                DeclaredOffset::Agrees => {},
                DeclaredOffset::Absent => {
                    warnings.push(ValidationWarning::MissingDifferTp { vertical_datum });
                },
            }
        } else {
            match declared {
                DeclaredOffset::Absent => {},
                _ => {
                    warnings.push(ValidationWarning::UnnecessaryDifferTp);
                },
            }
        }
        match horizontal_datum {
            HorizontalDatum::TD => {
                warnings.push(ValidationWarning::LegacyDatumUsage { datum: horizontal_datum });
            },
            _ => {},
        }
        proof {
            assert(warnings@ =~= Self::warnings(horizontal_datum, vertical_datum, declared));
        }
        Ok(warnings)
    }
}

/// A horizontal datum is read back from its own name: the name has no white
/// space at its ends, and no other datum shares it.
pub proof fn lemma_horizontal_datum_read_back(datum: HorizontalDatum)
    ensures
        trimmed(datum.name()) == datum.name(),
        HorizontalDatum::named(datum.name()) == Some(datum),
{
    reveal_strlit("JGD2000");
    reveal_strlit("JGD2011");
    reveal_strlit("TD");
    let name = datum.name();
    assert(name.len() >= 2);
    assert(!is_white_space(name.first()) && !is_white_space(name.last()));
    assert("JGD2000"@[6] != "JGD2011"@[6]);
}

/// A vertical datum is read back from its own name: the name has no white
/// space at its ends, and no other datum shares it.
pub proof fn lemma_vertical_datum_read_back(datum: VerticalDatum)
    ensures
        trimmed(datum.name()) == datum.name(),
        VerticalDatum::named(datum.name()) == Some(datum),
{
    reveal_strlit("T.P");
    reveal_strlit("K.P");
    reveal_strlit("S.P");
    reveal_strlit("Y.P");
    reveal_strlit("A.P");
    reveal_strlit("O.P");
    reveal_strlit("T.P.W");
    reveal_strlit("B.S.L");
    let name = datum.name();
    assert(name.len() >= 3);
    assert(!is_white_space(name.first()) && !is_white_space(name.last()));
    assert("T.P"@[0] == 'T' && "K.P"@[0] == 'K' && "S.P"@[0] == 'S' && "Y.P"@[0] == 'Y');
    assert("A.P"@[0] == 'A' && "O.P"@[0] == 'O' && "T.P.W"@[0] == 'T' && "B.S.L"@[0] == 'B');
}

/// Every zone is the zone that has its number.
pub proof fn lemma_zone_of_its_number(zone: JapanPlaneCoordinateSystem)
    ensures
        JapanPlaneCoordinateSystem::of_number(zone.number()) == Some(zone),
        1 <= zone.number() <= 19,
{
}

/// A number names a zone exactly when it lies between 1 and 19, and the zone
/// that it names has that number.
pub proof fn lemma_number_of_its_zone(number: nat)
    ensures
        JapanPlaneCoordinateSystem::of_number(number) is Some <==> 1 <= number <= 19,
        JapanPlaneCoordinateSystem::of_number(number) matches Some(zone) ==> zone.number()
            == number,
{
}

} // verus!
