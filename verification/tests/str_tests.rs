use wrun::strutil::Str;

#[test]
fn validation_predicates() {
    let s = Str::new();
    assert!(s.isEmpty(""));
    assert!(!s.isEmpty("a"));
    assert!(s.isBlank(""));
    assert!(s.isBlank("  \t\n"));
    assert!(!s.isBlank(" a "));
    assert!(s.isNumeric("0123"));
    assert!(!s.isNumeric(""));
    assert!(!s.isNumeric("12a"));
    assert!(s.isAlpha("abcXYZ"));
    assert!(!s.isAlpha("ab1"));
    assert!(!s.isAlpha(""));
    assert!(s.isAlphaNumeric("ab12"));
    assert!(!s.isAlphaNumeric("ab 12"));
    assert!(s.isUpper("ABC-12"));
    assert!(!s.isUpper("AbC"));
    assert!(!s.isUpper(""));
    assert!(s.isLower("abc-12"));
    assert!(!s.isLower("aBc"));
}

#[test]
fn case_conversions() {
    let s = Str::new();
    assert_eq!(s.toUpper("abcÄö1"), "ABCÄÖ1");
    assert_eq!(s.toLower("AbCÄö1"), "abcäö1");
    assert_eq!(s.capitalize("hello"), "Hello");
    assert_eq!(s.capitalize(""), "");
    assert_eq!(s.capitalize("ßx"), "SSx");
}

#[test]
fn trim_family() {
    let s = Str::new();
    assert_eq!(s.trim("  a b  "), "a b");
    assert_eq!(s.trim("\t\n"), "");
    assert_eq!(s.trim(""), "");
    assert_eq!(s.trimStart("  ab "), "ab ");
    assert_eq!(s.trimEnd(" ab  "), " ab");
}

#[test]
fn reverse_repeat_pad() {
    let s = Str::new();
    assert_eq!(s.reverse("abc"), "cba");
    assert_eq!(s.reverse(""), "");
    assert_eq!(s.repeat("ab", 3), "ababab");
    assert_eq!(s.repeat("ab", 0), "");
    assert_eq!(s.padStart("5", 3, "0"), "005");
    assert_eq!(s.padStart("abcd", 3, "0"), "abcd");
    assert_eq!(s.padStart("a", 4, "xy"), "xyxa");
    assert_eq!(s.padStart("a", 4, ""), "a");
    assert_eq!(s.padEnd("5", 3, "0"), "500");
    assert_eq!(s.padEnd("a", 4, "xy"), "axyx");
}

#[test]
fn camel_snake_kebab() {
    let s = Str::new();
    assert_eq!(s.camelCase("hello_world"), "helloWorld");
    assert_eq!(s.camelCase("Hello big-world now"), "helloBigWorldNow");
    assert_eq!(s.camelCase("__a_b"), "aB");
    assert_eq!(s.snakeCase("helloWorld"), "hello_world");
    assert_eq!(s.snakeCase("Hello big-World"), "hello_big_world");
    assert_eq!(s.kebabCase("helloWorld"), "hello-world");
    assert_eq!(s.kebabCase("Hello big_World"), "hello-big-world");
}

#[test]
fn truncation() {
    let s = Str::new();
    assert_eq!(s.truncate("hello world", 8), "hello...");
    assert_eq!(s.truncate("hello", 8), "hello");
    assert_eq!(s.truncate("hello", 3), "hel");
    assert_eq!(s.truncateWith("hello world", 8, "~~"), "hello ~~");
    assert_eq!(s.truncateWith("hello", 2, "..."), "he");
}

#[test]
fn search_methods() {
    let s = Str::new();
    assert!(s.contains("hello world", "lo w"));
    assert!(!s.contains("hello", "z"));
    assert!(s.startsWith("hello", "he"));
    assert!(!s.startsWith("hello", "hello!"));
    assert!(s.endsWith("hello", "llo"));
    assert!(!s.endsWith("hello", "hell"));
    assert_eq!(s.indexOf("abcabc", "bc"), Some(1));
    assert_eq!(s.indexOf("abc", "z"), None);
    assert_eq!(s.indexOf("abc", ""), Some(0));
    assert_eq!(s.lastIndexOf("abcabc", "bc"), Some(4));
    assert_eq!(s.lastIndexOf("abc", "z"), None);
    assert_eq!(s.lastIndexOf("abc", ""), Some(3));
    assert_eq!(s.count("aaaa", "aa"), 2);
    assert_eq!(s.count("abcabc", "abc"), 2);
    assert_eq!(s.count("abc", ""), 0);
}

#[test]
fn replacement() {
    let s = Str::new();
    assert_eq!(s.replace("a-b-c", "-", "+"), "a+b-c");
    assert_eq!(s.replace("abc", "z", "+"), "abc");
    assert_eq!(s.replaceAll("a-b-c", "-", "+"), "a+b+c");
    assert_eq!(s.replaceAll("abc", "", "-"), "-a-b-c-");
    assert_eq!(s.replaceAll("aaa", "aa", "b"), "ba");
}

#[test]
fn splitting() {
    let s = Str::new();
    assert_eq!(s.split("a,b,,c", ","), vec!["a", "b", "", "c"]);
    assert_eq!(s.split("abc", ""), vec!["a", "b", "c"]);
    assert_eq!(s.split("abc", "x"), vec!["abc"]);
    assert_eq!(s.splitLimit("a,b,c", ",", 2), vec!["a", "b,c"]);
    assert_eq!(s.splitLimit("a,b,c", ",", 0), vec!["a,b,c"]);
    assert_eq!(s.splitLimit("abcd", "", 2), vec!["a", "b"]);
    assert_eq!(s.lines("a\nb"), vec!["a", "b"]);
    assert_eq!(s.lines("a\r\nb\n"), vec!["a", "b"]);
    assert_eq!(s.lines(""), Vec::<String>::new());
    assert_eq!(s.lines("\n"), vec![""]);
    assert_eq!(s.words("  the quick\tbrown\n fox "), vec!["the", "quick", "brown", "fox"]);
    assert_eq!(s.chars("ab"), vec!["a", "b"]);
}

#[test]
fn slicing_and_lengths() {
    let s = Str::new();
    assert_eq!(s.slice("hello", 2), "llo");
    assert_eq!(s.slice("hello", 9), "");
    assert_eq!(s.sliceRange("hello", 1, 3), "el");
    assert_eq!(s.sliceRange("hello", 3, 1), "");
    assert_eq!(s.sliceRange("hello", 3, 99), "lo");
    assert_eq!(s.at("hello", 1), "e");
    assert_eq!(s.at("hello", 9), "");
    assert_eq!(s.length("héllo"), 5);
    assert_eq!(s.byteLength("héllo"), 6);
}
