//! The catalog of versions that can be had: the hand-picked few, and the
//! whole list as text, one version to a line.

use crate::scanner::{ArchiveVersion, ArchiveView};
use vstd::prelude::*;
use vstd::string::*;

verus! {

/// Every version up to the last one the guard works with, one to a line:
/// label, number and address, set apart by bars.
pub const ALL_VERSIONS_DATA: &'static str = r#"
5.4.0 (Beta6)|5.4.0|https://lf16-capcut.faceulv.com/obj/capcutpc-packages-us/packages/CapCut_5_4_0_1991_beta6_capcutpc_beta_creatortool.exe
5.4.0 (Beta5)|5.4.0|https://lf16-capcut.faceulv.com/obj/capcutpc-packages-us/packages/CapCut_5_4_0_1988_beta5_capcutpc_beta_creatortool.exe
5.4.0 (Beta4)|5.4.0|https://lf16-capcut.faceulv.com/obj/capcutpc-packages-us/packages/CapCut_5_4_0_1982_beta4_capcutpc_beta_creatortool.exe
5.4.0 (Beta3)|5.4.0|https://lf16-capcut.faceulv.com/obj/capcutpc-packages-us/packages/CapCut_5_4_0_1979_beta3_capcutpc_beta_creatortool.exe
5.4.0 (Beta2)|5.4.0|https://lf16-capcut.faceulv.com/obj/capcutpc-packages-us/packages/CapCut_5_4_0_1978_beta2_capcutpc_beta_creatortool.exe
5.4.0 (Beta1)|5.4.0|https://lf16-capcut.faceulv.com/obj/capcutpc-packages-us/packages/CapCut_5_4_0_1976_beta1_capcutpc_beta_creatortool.exe
5.3.0 (Latest)|5.3.0|https://lf16-capcut.faceulv.com/obj/capcutpc-packages-us/packages/CapCut_5_3_0_1964_capcutpc_0_creatortool.exe
5.3.0 (Test2)|5.3.0|https://lf16-capcut.faceulv.com/obj/capcutpc-packages-us/packages/CapCut_5_3_0_1961_capcutpc_0_creatortool.exe
5.3.0 (Test1)|5.3.0|https://lf16-capcut.faceulv.com/obj/capcutpc-packages-us/packages/CapCut_5_3_0_1957_capcutpc_0_creatortool.exe
5.3.0 (Beta5)|5.3.0|https://lf16-capcut.faceulv.com/obj/capcutpc-packages-us/packages/CapCut_5_3_0_1962_beta5_capcutpc_beta_creatortool.exe
5.3.0 (Beta4)|5.3.0|https://lf16-capcut.faceulv.com/obj/capcutpc-packages-us/packages/CapCut_5_3_0_1956_beta4_capcutpc_beta_creatortool.exe
5.3.0 (Beta3)|5.3.0|https://lf16-capcut.faceulv.com/obj/capcutpc-packages-us/packages/CapCut_5_3_0_1952_beta3_capcutpc_beta_creatortool.exe
5.3.0 (Beta2)|5.3.0|https://lf16-capcut.faceulv.com/obj/capcutpc-packages-us/packages/CapCut_5_3_0_1949_beta2_capcutpc_beta_creatortool.exe
5.3.0 (Test1 Beta2)|5.3.0|https://lf16-capcut.faceulv.com/obj/capcutpc-packages-us/packages/CapCut_5_3_0_1947_beta2_capcutpc_beta_creatortool.exe
5.3.0 (Beta1)|5.3.0|https://lf16-capcut.faceulv.com/obj/capcutpc-packages-us/packages/CapCut_5_3_0_1942_beta1_capcutpc_beta_creatortool.exe
5.3.0 (Test1 Beta1)|5.3.0|https://lf16-capcut.faceulv.com/obj/capcutpc-packages-us/packages/CapCut_5_3_0_1941_beta1_capcutpc_beta_creatortool.exe
5.2.0 (Latest)|5.2.0|https://lf16-capcut.faceulv.com/obj/capcutpc-packages-us/packages/CapCut_5_2_0_1950_capcutpc_0_creatortool.exe
5.2.0 (Test3)|5.2.0|https://lf16-capcut.faceulv.com/obj/capcutpc-packages-us/packages/CapCut_5_2_0_1946_capcutpc_0_creatortool.exe
5.2.0 (Test2)|5.2.0|https://lf16-capcut.faceulv.com/obj/capcutpc-packages-us/packages/CapCut_5_2_0_1940_capcutpc_0_creatortool.exe
5.2.0 (Test1)|5.2.0|https://lf16-capcut.faceulv.com/obj/capcutpc-packages-us/packages/CapCut_5_2_0_1939_capcutpc_0_creatortool.exe
5.2.0 (Beta8)|5.2.0|https://lf16-capcut.faceulv.com/obj/capcutpc-packages-us/packages/CapCut_5_2_0_1945_beta8_capcutpc_beta_creatortool.exe
5.2.0 (Beta7)|5.2.0|https://lf16-capcut.faceulv.com/obj/capcutpc-packages-us/packages/CapCut_5_2_0_1937_beta7_capcutpc_beta_creatortool.exe
5.2.0 (Beta6)|5.2.0|https://lf16-capcut.faceulv.com/obj/capcutpc-packages-us/packages/CapCut_5_2_0_1934_beta6_capcutpc_beta_creatortool.exe
5.2.0 (Beta5)|5.2.0|https://lf16-capcut.faceulv.com/obj/capcutpc-packages-us/packages/CapCut_5_2_0_1933_beta5_capcutpc_beta_creatortool.exe
5.2.0 (Beta4)|5.2.0|https://lf16-capcut.faceulv.com/obj/capcutpc-packages-us/packages/CapCut_5_2_0_1929_beta4_capcutpc_beta_creatortool.exe
5.2.0 (Beta3)|5.2.0|https://lf16-capcut.faceulv.com/obj/capcutpc-packages-us/packages/CapCut_5_2_0_1928_beta3_capcutpc_beta_creatortool.exe
5.2.0 (Beta2)|5.2.0|https://lf16-capcut.faceulv.com/obj/capcutpc-packages-us/packages/CapCut_5_2_0_1925_beta2_capcutpc_beta_creatortool.exe
5.2.0 (Beta1)|5.2.0|https://lf16-capcut.faceulv.com/obj/capcutpc-packages-us/packages/CapCut_5_2_0_1923_beta1_capcutpc_beta_creatortool.exe
5.1.0 (Latest)|5.1.0|https://lf16-capcut.faceulv.com/obj/capcutpc-packages-us/packages/CapCut_5_1_0_1926_capcutpc_0_creatortool.exe
5.1.0 (Test2)|5.1.0|https://lf16-capcut.faceulv.com/obj/capcutpc-packages-us/packages/CapCut_5_1_0_1922_capcutpc_0_creatortool.exe
5.1.0 (Test1)|5.1.0|https://lf16-capcut.faceulv.com/obj/capcutpc-packages-us/packages/CapCut_5_1_0_1919_capcutpc_0_creatortool.exe
5.1.0 (Beta7)|5.1.0|https://lf16-capcut.faceulv.com/obj/capcutpc-packages-us/packages/CapCut_5_1_0_1924_beta7_capcutpc_beta_creatortool.exe
5.1.0 (Beta6)|5.1.0|https://lf16-capcut.faceulv.com/obj/capcutpc-packages-us/packages/CapCut_5_1_0_1920_beta6_capcutpc_beta_creatortool.exe
5.1.0 (Beta5)|5.1.0|https://lf16-capcut.faceulv.com/obj/capcutpc-packages-us/packages/CapCut_5_1_0_1918_beta5_capcutpc_beta_creatortool.exe
5.1.0 (Beta4)|5.1.0|https://lf16-capcut.faceulv.com/obj/capcutpc-packages-us/packages/CapCut_5_1_0_1916_beta4_capcutpc_beta_creatortool.exe
5.1.0 (Beta3)|5.1.0|https://lf16-capcut.faceulv.com/obj/capcutpc-packages-us/packages/CapCut_5_1_0_1913_beta3_capcutpc_beta_creatortool.exe
5.1.0 (Beta2)|5.1.0|https://lf16-capcut.faceulv.com/obj/capcutpc-packages-us/packages/CapCut_5_1_0_1910_beta2_capcutpc_beta_creatortool.exe
5.1.0 (Beta1)|5.1.0|https://lf16-capcut.faceulv.com/obj/capcutpc-packages-us/packages/CapCut_5_1_0_1907_beta1_capcutpc_beta_creatortool.exe
5.0.0 (Latest)|5.0.0|https://lf16-capcut.faceulv.com/obj/capcutpc-packages-us/packages/CapCut_5_0_0_1908_capcutpc_0_creatortool.exe
5.0.0 (Latest v2)|5.0.0|https://lf16-capcut.faceulv.com/obj/capcutpc-packages-us/packages/CapCut_5_0_0_1903_capcutpc_0_creatortool.exe
5.0.0 (Test1)|5.0.0|https://lf16-capcut.faceulv.com/obj/capcutpc-packages-us/packages/CapCut_5_0_0_1899_capcutpc_0_creatortool.exe
5.0.0 (Beta6)|5.0.0|https://lf16-capcut.faceulv.com/obj/capcutpc-packages-us/packages/CapCut_5_0_0_1906_beta6_capcutpc_beta_creatortool.exe
5.0.0 (Beta5)|5.0.0|https://lf16-capcut.faceulv.com/obj/capcutpc-packages-us/packages/CapCut_5_0_0_1905_beta5_capcutpc_beta_creatortool.exe
5.0.0 (Beta4)|5.0.0|https://lf16-capcut.faceulv.com/obj/capcutpc-packages-us/packages/CapCut_5_0_0_1902_beta4_capcutpc_beta_creatortool.exe
5.0.0 (Beta3)|5.0.0|https://lf16-capcut.faceulv.com/obj/capcutpc-packages-us/packages/CapCut_5_0_0_1901_beta3_capcutpc_beta_creatortool.exe
5.0.0 (Beta2)|5.0.0|https://lf16-capcut.faceulv.com/obj/capcutpc-packages-us/packages/CapCut_5_0_0_1898_beta2_capcutpc_beta_creatortool.exe
5.0.0 (Beta1)|5.0.0|https://lf16-capcut.faceulv.com/obj/capcutpc-packages-us/packages/CapCut_5_0_0_1897_beta1_capcutpc_beta_creatortool.exe
4.7.0 (Latest)|4.7.0|https://lf16-capcut.faceulv.com/obj/capcutpc-packages-us/packages/CapCut_4_7_0_1869_capcutpc_0_creatortool.exe
4.6.0 (Latest)|4.6.0|https://lf16-capcut.faceulv.com/obj/capcutpc-packages-us/packages/CapCut_4_6_0_1842_capcutpc_0_creatortool.exe
4.5.0 (Latest)|4.5.0|https://lf16-capcut.faceulv.com/obj/capcutpc-packages-us/packages/CapCut_4_5_0_1815_capcutpc_0_creatortool.exe
4.4.0 (Latest)|4.4.0|https://lf16-capcut.faceulv.com/obj/capcutpc-packages-us/packages/CapCut_4_4_0_1783_capcutpc_0_creatortool.exe
4.3.0 (Latest)|4.3.0|https://lf16-capcut.faceulv.com/obj/capcutpc-packages-us/packages/CapCut_4_3_0_1754_capcutpc_0_creatortool.exe
4.2.0 (Latest)|4.2.0|https://lf16-capcut.faceulv.com/obj/capcutpc-packages-us/packages/CapCut_4_2_0_1728_capcutpc_0_creatortool.exe
4.1.0 (Latest)|4.1.0|https://lf16-capcut.faceulv.com/obj/capcutpc-packages-us/packages/CapCut_4_1_0_1706_capcutpc_0_creatortool.exe
4.0.0 (Latest)|4.0.0|https://lf16-capcut.faceulv.com/obj/capcutpc-packages-us/packages/CapCut_4_0_0_1680_capcutpc_0_creatortool.exe
3.9.0 (Latest)|3.9.0|https://lf16-capcut.faceulv.com/obj/capcutpc-packages-us/packages/CapCut_3_9_0_1663_capcutpc_0_creatortool.exe
3.8.0 (Latest)|3.8.0|https://lf16-capcut.faceulv.com/obj/capcutpc-packages-us/packages/CapCut_3_8_0_1638_capcutpc_0_creatortool.exe
3.7.0 (Latest)|3.7.0|https://lf16-capcut.faceulv.com/obj/capcutpc-packages-us/packages/CapCut_3_7_0_1622_capcutpc_0_creatortool.exe
3.6.0 (Latest)|3.6.0|https://lf16-capcut.faceulv.com/obj/capcutpc-packages-us/packages/CapCut_3_6_0_1596_capcutpc_0_creatortool.exe
3.5.0 (Latest)|3.5.0|https://lf16-capcut.faceulv.com/obj/capcutpc-packages-us/packages/CapCut_3_5_0_1578_capcutpc_0_creatortool.exe
3.4.0 (Latest)|3.4.0|https://lf16-capcut.faceulv.com/obj/capcutpc-packages-us/packages/CapCut_3_4_0_1559_capcutpc_0_creatortool.exe
3.3.0 (Latest)|3.3.0|https://lf16-capcut.faceulv.com/obj/capcutpc-packages-us/packages/CapCut_3_3_0_1535_capcutpc_0_creatortool.exe
3.2.0 (Latest)|3.2.0|https://lf16-capcut.faceulv.com/obj/capcutpc-packages-us/packages/CapCut_3_2_0_1516_capcutpc_0_creatortool.exe
3.1.0 (Latest)|3.1.0|https://lf16-capcut.faceulv.com/obj/capcutpc-packages-us/packages/CapCut_3_1_0_1497_capcutpc_0_creatortool.exe
3.0.0 (Latest)|3.0.0|https://lf16-capcut.faceulv.com/obj/capcutpc-packages-us/packages/CapCut_3_0_0_1478_capcutpc_0_creatortool.exe
2.9.0 (Latest)|2.9.0|https://lf16-capcut.faceulv.com/obj/capcutpc-packages-us/packages/CapCut_2_9_0_1457_capcutpc_0_creatortool.exe
2.8.0 (Latest)|2.8.0|https://lf16-capcut.faceulv.com/obj/capcutpc-packages-us/packages/CapCut_2_8_0_1441_capcutpc_0_creatortool.exe
2.7.0 (Latest)|2.7.0|https://lf16-capcut.faceulv.com/obj/capcutpc-packages-us/packages/CapCut_2_7_0_1435_capcutpc_0_creatortool.exe
2.6.0 (Latest)|2.6.0|https://lf16-capcut.faceulv.com/obj/capcutpc-packages-us/packages/CapCut_2_6_0_1269_capcutpc_0.exe
2.5.0 (Latest)|2.5.0|https://lf16-capcut.faceulv.com/obj/capcutpc-packages-us/packages/CapCut_2_5_0_1222_capcutpc_0.exe
2.4.0 (Latest)|2.4.0|https://lf16-capcut.faceulv.com/obj/capcutpc-packages-us/packages/CapCut_2_4_0_1186_capcutpc_0.exe
2.3.0 (Latest)|2.3.0|https://lf16-capcut.faceulv.com/obj/capcutpc-packages-us/packages/CapCut_2_3_0_1158_capcutpc_0.exe
2.2.0 (Latest)|2.2.0|https://lf16-capcut.faceulv.com/obj/capcutpc-packages-us/packages/CapCut_2_2_0_1112_capcutpc_0.exe
2.1.0 (Latest)|2.1.0|https://lf16-capcut.faceulv.com/obj/capcutpc-packages-us/packages/CapCut_2_1_0_1038_capcutpc_0.exe
2.0.0 (Latest)|2.0.0|https://lf16-capcut.faceulv.com/obj/capcutpc-packages-us/packages/CapCut_2_0_0_822_capcutpc_0.exe
1.9.0 (Latest)|1.9.0|https://lf16-capcut.faceulv.com/obj/capcutpc-packages-us/packages/CapCut_1_9_0_699_capcutpc_0.exe
1.8.0 (Latest)|1.8.0|https://lf16-capcut.faceulv.com/obj/capcutpc-packages-us/packages/CapCut_1_8_0_633_capcutpc_0.exe
1.7.0 (Latest)|1.7.0|https://lf16-capcut.faceulv.com/obj/capcutpc-packages-us/packages/CapCut_1_7_0_587_capcutpc_0.exe
1.6.0 (Latest)|1.6.0|https://lf16-capcut.faceulv.com/obj/capcutpc-packages-us/packages/CapCut_1_6_0_519_capcutpc_0.exe
1.5.0 (Latest)|1.5.0|https://lf16-capcut.faceulv.com/obj/capcutpc-packages-us/packages/CapCut_1_5_0_433_capcutpc_0.exe
1.4.0 (Latest)|1.4.0|https://lf16-capcut.faceulv.com/obj/capcutpc-packages-us/packages/CapCut_1_4_0_334_capcutpc_0.exe
1.3.0 (Latest)|1.3.0|https://lf16-capcut.faceulv.com/obj/capcutpc-packages-us/packages/CapCut_1_3_0_262_capcutpc_0.exe
1.2.0 (Latest)|1.2.0|https://lf16-capcut.faceulv.com/obj/capcutpc-packages-us/packages/CapCut_1_2_0_213_capcutpc_0.exe
1.1.0 (Latest)|1.1.0|https://lf16-capcut.faceulv.com/obj/capcutpc-packages-us/packages/CapCut_1_1_0_155_capcutpc_0.exe
1.0.0 (Latest)|1.0.0|https://lf16-capcut.faceulv.com/obj/capcutpc-packages-us/packages/CapCut_1_0_0_44_capcutpc_0.exe
"#;

/// A version of the hand-picked list, as plain sequences.
pub open spec fn pick(
    persona: Seq<char>,
    version: Seq<char>,
    description: Seq<char>,
    first: Seq<char>,
    second: Seq<char>,
    third: Seq<char>,
    download_url: Seq<char>,
    risk_level: Seq<char>,
) -> ArchiveView {
    ArchiveView {
        persona,
        version,
        description,
        features: seq![first, second, third],
        download_url,
        risk_level,
    }
}

fn make_pick(
    persona: &str,
    version: &str,
    description: &str,
    first: &str,
    second: &str,
    third: &str,
    download_url: &str,
    risk_level: &str,
) -> (out: ArchiveVersion)
    ensures
        out.deep_view() == pick(
            persona@,
            version@,
            description@,
            first@,
            second@,
            third@,
            download_url@,
            risk_level@,
        ),
{
    let mut features: Vec<String> = Vec::new();
    features.push(String::from_str(first));
    features.push(String::from_str(second));
    features.push(String::from_str(third));
    proof {
        assert(features.deep_view() =~= seq![first@, second@, third@]);
    }
    ArchiveVersion {
        persona: String::from_str(persona),
        version: String::from_str(version),
        description: String::from_str(description),
        features,
        download_url: String::from_str(download_url),
        risk_level: String::from_str(risk_level),
    }
}

/// The hand-picked versions, oldest first.
pub open spec fn curated() -> Seq<ArchiveView> {
    seq![
        pick(
            "Offline Purist"@,
            "1.5.0"@,
            "Zero cloud dependencies. Unrestricted 4K export."@,
            "Clean UI"@,
            "Offline Only"@,
            "No Nags"@,
            "https://lf16-capcut.faceulv.com/obj/capcutpc-packages-us/packages/CapCut_1_5_0_230_capcutpc_0.exe"@,
            "Low"@,
        ),
        pick(
            "Audio Engineer"@,
            "2.5.4"@,
            "Multi-track audio & stable mixer. The golden era."@,
            "Multi-Track"@,
            "Audio Mixer"@,
            "Keyframes"@,
            "https://lf16-capcut.faceulv.com/obj/capcutpc-packages-us/packages/CapCut_2_5_4_810_capcutpc_0_creatortool.exe"@,
            "Low"@,
        ),
        pick(
            "Classic Pro"@,
            "2.9.0"@,
            "Most free features before the generic paywalls."@,
            "Max Free Features"@,
            "Stable"@,
            "Legacy UI"@,
            "https://lf16-capcut.faceulv.com/obj/capcutpc-packages-us/packages/CapCut_2_9_0_966_capcutpc_0_creatortool.exe"@,
            "Medium"@,
        ),
        pick(
            "Modern Stable"@,
            "3.2.0"@,
            "Good balance of modern features vs paywalls."@,
            "Modern UI"@,
            "Smooth"@,
            "Balanced"@,
            "https://lf16-capcut.faceulv.com/obj/capcutpc-packages-us/packages/CapCut_3_2_0_1106_capcutpc_0_creatortool.exe"@,
            "Medium"@,
        ),
        pick(
            "Creator"@,
            "3.9.0"@,
            "Last version with free auto-captions (High Risk)."@,
            "Auto-Captions"@,
            "AI Features"@,
            "Effects"@,
            "https://lf16-capcut.faceulv.com/obj/capcutpc-packages-us/packages/CapCut_3_9_0_1459_capcutpc_0_creatortool.exe"@,
            "High"@,
        ),
        pick(
            "Power User"@,
            "4.0.0"@,
            "Track height adjustment & markers. Stricter paywall."@,
            "Track Zoom"@,
            "Markers"@,
            "Adv Features"@,
            "https://lf16-capcut.faceulv.com/obj/capcutpc-packages-us/packages/CapCut_4_0_0_1539_capcutpc_0_creatortool.exe"@,
            "Medium"@,
        ),
    ]
}

/// The hand-picked versions, oldest first.
pub fn get_archive_versions() -> (out: Vec<ArchiveVersion>)
    ensures
        out.deep_view() == curated(),
{
    let mut out: Vec<ArchiveVersion> = Vec::new();
    out.push(
        make_pick(
            "Offline Purist",
            "1.5.0",
            "Zero cloud dependencies. Unrestricted 4K export.",
            "Clean UI",
            "Offline Only",
            "No Nags",
            "https://lf16-capcut.faceulv.com/obj/capcutpc-packages-us/packages/CapCut_1_5_0_230_capcutpc_0.exe",
            "Low",
        ),
    );
    out.push(
        make_pick(
            "Audio Engineer",
            "2.5.4",
            "Multi-track audio & stable mixer. The golden era.",
            "Multi-Track",
            "Audio Mixer",
            "Keyframes",
            "https://lf16-capcut.faceulv.com/obj/capcutpc-packages-us/packages/CapCut_2_5_4_810_capcutpc_0_creatortool.exe",
            "Low",
        ),
    );
    out.push(
        make_pick(
            "Classic Pro",
            "2.9.0",
            "Most free features before the generic paywalls.",
            "Max Free Features",
            "Stable",
            "Legacy UI",
            "https://lf16-capcut.faceulv.com/obj/capcutpc-packages-us/packages/CapCut_2_9_0_966_capcutpc_0_creatortool.exe",
            "Medium",
        ),
    );
    out.push(
        make_pick(
            "Modern Stable",
            "3.2.0",
            "Good balance of modern features vs paywalls.",
            "Modern UI",
            "Smooth",
            "Balanced",
            "https://lf16-capcut.faceulv.com/obj/capcutpc-packages-us/packages/CapCut_3_2_0_1106_capcutpc_0_creatortool.exe",
            "Medium",
        ),
    );
    out.push(
        make_pick(
            "Creator",
            "3.9.0",
            "Last version with free auto-captions (High Risk).",
            "Auto-Captions",
            "AI Features",
            "Effects",
            "https://lf16-capcut.faceulv.com/obj/capcutpc-packages-us/packages/CapCut_3_9_0_1459_capcutpc_0_creatortool.exe",
            "High",
        ),
    );
    out.push(
        make_pick(
            "Power User",
            "4.0.0",
            "Track height adjustment & markers. Stricter paywall.",
            "Track Zoom",
            "Markers",
            "Adv Features",
            "https://lf16-capcut.faceulv.com/obj/capcutpc-packages-us/packages/CapCut_4_0_0_1539_capcutpc_0_creatortool.exe",
            "Medium",
        ),
    );
    proof {
        assert(out.deep_view() =~= curated());
    }
    out
}

} // verus!
