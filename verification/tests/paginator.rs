use lbplaylist::paginator::ListenbrainzPaginator;

#[test]
fn test_paginator() {
    let mut test = ListenbrainzPaginator::new("https://www.example.com/", 0, 5);
    assert_eq!(
        "https://www.example.com/?count=5&offset=0",
        test.next_url().unwrap().as_str()
    );
    assert_eq!(
        "https://www.example.com/?count=5&offset=5",
        test.next_url().unwrap().as_str()
    );
    assert_eq!(
        "https://www.example.com/?count=5&offset=10",
        test.next_url().unwrap().as_str()
    );
}

#[test]
fn test_paginator_start_position() {
    let mut test = ListenbrainzPaginator::new("https://www.example.com/", 40, 20);
    assert_eq!(
        "https://www.example.com/?count=20&offset=40",
        test.next_url().unwrap().as_str()
    );
    assert_eq!(
        "https://www.example.com/?count=20&offset=60",
        test.next_url().unwrap().as_str()
    );
}

#[test]
fn test_paginator_bad_base() {
    let mut test = ListenbrainzPaginator::new("not a url", 0, 5);
    assert!(test.next_url().is_none());
}
