use simd_intrinsics::nice::{
    chars_of, code_of, is_nice, is_nice2, rule1, rule2, rule3, rule4, rule5,
};

#[test]
fn test_rule1() {
    assert!(rule1("aei"));
    assert!(rule1("xazegov"));
    assert!(rule1("aeiouaeiouaeiou"));
}

#[test]
fn test_rule2() {
    assert!(rule2("xx"));
    assert!(rule2("abcdde"));
    assert!(rule2("aabbccdd"));
}

#[test]
fn test_rule3() {
    assert!(!rule3("aabb"));
    assert!(!rule3("xxcdxx"));
    assert!(!rule3("apqrs"));
    assert!(!rule3("xxyy"));
    assert!(rule3("efgh"));
}

#[test]
fn test_nice() {
    assert!(is_nice("ugknbfddgicrmopn"));
    assert!(is_nice("aaa"));
    assert!(!is_nice("jchzalrnumimnmhp"));
    assert!(!is_nice("haegwjzuvuyypxyu"));
    assert!(!is_nice("dvszwmarrgswjxmb"));
}

#[test]
fn test_rule4() {
    assert!(rule4("xyxy"));
    assert!(rule4("aabcdefgaa"));
    assert!(!rule4("aaa"));
}

#[test]
fn test_rule5() {
    assert!(rule5("xyx"));
    assert!(rule5("abcdefeghi"));
    assert!(rule5("aaa"));
    assert!(!rule5("abba"));
}

#[test]
fn main_test_nice() {
    assert!(is_nice2("qjhvhtzxzqqjkmpb"));
    assert!(is_nice2("xxyxx"));
    assert!(!is_nice2("uurcxstgmygtbstg"));
    assert!(!is_nice2("ieodomkazucvgmuy"));
}

#[test]
fn vowels_count_with_repeats() {
    assert!(rule1("aaa"));
    assert!(!rule1("aa"));
    assert!(!rule1(""));
    assert!(!rule1("bcdfg"));
    assert!(!rule1("AEIOU"));
    assert!(rule1("a-e-i"));
}

#[test]
fn short_strings_have_no_pairs() {
    for x in ["", "a", "ab"] {
        assert!(!rule4(x));
        assert!(!rule5(x));
    }
    assert!(!rule2(""));
    assert!(!rule2("a"));
    assert!(!rule2("ab"));
    assert!(rule3(""));
    assert!(rule3("a"));
    assert!(rule3("ba"));
    assert!(!rule3("ab"));
}

#[test]
fn a_pair_directly_after_its_like_is_judged_by_that_neighbour() {
    assert!(!rule4("aaaa"));
    assert!(rule4("aaxaa"));
    assert!(rule4("aaaxaa"));
    assert!(!rule4("xaaa"));
    assert!(rule4("abab"));
    assert!(rule4("ab..ab"));
    assert!(!rule4("abcadb"));
    assert!(rule4("abcabd"));
}

#[test]
fn characters_beyond_ascii() {
    assert_eq!(chars_of("aé€😀"), vec!['a', 'é', '€', '😀']);
    assert!(rule2("😀😀"));
    assert!(rule5("é€é"));
    assert!(rule4("é€xé€"));
    assert_ne!(code_of('a', 'b'), code_of('b', 'a'));
    assert_eq!(code_of('a', 'b'), 0x61_0000_0062);
    assert_eq!(code_of('\u{10ffff}', '\u{10ffff}'), 0x10_ffff_0010_ffff);
}
