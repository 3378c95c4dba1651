//! Fuzzy search over pinyin, with the original corpus.

use plugin_manager::search::{fuzzy_score, fuzzy_search, fuzzy_search_score, to_py};

#[test]
fn test_basic_matching() {
    let query = "yz";
    let data = vec![
        "就依他说的这么办吧".to_string(),
        "啊这".to_string(),
        "ez".to_string(),
        "医者1仁心".to_string(),
        "伊泽瑞尔".to_string(),
        "zyyz".to_string(),
    ];
    let result = fuzzy_search_score(query, &data);
    println!("search: {query} => {:?}", result);
    let result = fuzzy_search(query, &data);
    println!("search: {query} => {:?}", result);
    assert!(result[2] == "zyyz")
}

#[test]
fn test_py() {
    let str = to_py("医者1仁心 ");
    println!("{str}");
    assert_eq!(str, "yizhe1renxin ".to_string())
}

#[test]
fn exact_scores() {
    // single char at the very start: 1 base + 5 start bonus
    assert_eq!(fuzzy_score("a", "abc"), 6);
    // both chars consecutive from the start: 6 + 1 + 3
    assert_eq!(fuzzy_score("ab", "ab"), 10);
    // best start is the second 'y': 'z' follows directly (1 + 1 + 3)
    assert_eq!(fuzzy_score("yz", "zyyz"), 5);
    // no occurrence of the first query char
    assert_eq!(fuzzy_score("yz", "ez"), 0);
    // empty query scores nothing
    assert_eq!(fuzzy_score("", "anything"), 0);
}

#[test]
fn matching_is_case_insensitive() {
    assert_eq!(fuzzy_score("A", "a"), 6);
    assert_eq!(fuzzy_score("a", "A"), 6);
    assert_eq!(fuzzy_score("AB", "ab"), 10);
}

#[test]
fn ranking_is_stable_for_equal_scores() {
    let data = vec!["ab".to_string(), "xx".to_string(), "ab".to_string()];
    let ranked = fuzzy_search("ab", &data);
    // the two equal top scorers keep their relative order; the
    // non-matching entry goes last
    assert_eq!(ranked, vec!["ab".to_string(), "ab".to_string(), "xx".to_string()]);
}

#[test]
fn pinyin_transliteration_feeds_the_score() {
    // "医" transliterates to "yi", so the query "yi" scores it
    let score = fuzzy_search_score("yi", &vec!["医".to_string()]);
    assert!(score[0] > 0);
}
