use presence_bot::utils::paging::Book;

fn book(n: i32) -> Book<i32> {
    Book::new((1..=n).collect())
}

#[test]
fn new_counts_items() {
    let b = book(7);
    assert_eq!(b.itemcount, 7);
    assert_eq!(b.items, vec![1, 2, 3, 4, 5, 6, 7]);
}

#[test]
fn get_page_slices() {
    let b = book(25);
    assert_eq!(b.get_page(1, 10), (1..=10).collect::<Vec<_>>());
    assert_eq!(b.get_page(2, 10), (11..=20).collect::<Vec<_>>());
    assert!(b.can_get_page(2, 10));
    assert!(!b.can_get_page(3, 10));
    assert!(!b.can_get_page(0, 10));
    assert!(b.can_get_page(3, 5));
    assert_eq!(b.get_page(5, 5), vec![21, 22, 23, 24, 25]);
}

#[test]
fn page_count_is_ceiling() {
    let b = book(25);
    assert_eq!(b.get_page_count(10), 3);
    assert_eq!(b.get_page_count(5), 5);
    assert_eq!(b.get_page_count(1), 25);
    assert_eq!(b.get_page_count(-10), -2);
    assert_eq!(b.get_page_count(0), i32::MAX);
    assert_eq!(book(0).get_page_count(10), 0);
    assert_eq!(book(0).get_page_count(0), 0);
}

#[test]
fn page_count_matches_float_formula() {
    let counts = [0, 1, 9, 10, 11, -1, -10, -11, i32::MAX, i32::MIN, 12345];
    let sizes = [1, 2, 3, 10, -1, -3, 0, i32::MAX, i32::MIN, 7];
    for &count in counts.iter() {
        for &size in sizes.iter() {
            let b: Book<i32> = Book { items: vec![], itemcount: count };
            let expected = (count as f64 / size as f64).ceil() as i32;
            assert_eq!(b.get_page_count(size), expected, "{} / {}", count, size);
        }
    }
}

#[test]
fn change_page_count_and_limit() {
    let mut b = book(25);
    assert_eq!(b.page_limit(10), 3);
    assert_eq!(b.itemcount, 25);
    b.change_page_count(10);
    assert_eq!(b.itemcount, 3);
    assert_eq!(b.items.len(), 25);
}

#[test]
fn add_item_counts() {
    let mut b = book(2);
    b.add_item(9);
    assert_eq!(b.items, vec![1, 2, 9]);
    assert_eq!(b.itemcount, 3);
}

#[test]
fn process_book_pages() {
    let mut b = book(25);
    let mut pages = b.process_book(10);
    assert_eq!(pages.pages, 3);
    assert_eq!(pages.page_size, 10);
    assert_eq!(pages.current_page, 0);
    assert_eq!(pages.items.len(), 3);
    assert_eq!(pages.next(), Some((1..=10).collect::<Vec<_>>()));
    assert_eq!(pages.next(), Some((11..=20).collect::<Vec<_>>()));
    assert_eq!(pages.next(), Some((21..=25).collect::<Vec<_>>()));
    assert_eq!(pages.next(), None);
    assert_eq!(pages.current_page, 3);
    let flat: Vec<i32> = pages.items.concat();
    assert_eq!(flat, b.items);
    assert_eq!(b.get_page(2, 10), pages.items[1]);
}

#[test]
fn process_book_negative_size_is_one_page() {
    let mut b = book(4);
    let pages = b.process_book(-1);
    assert_eq!(pages.items, vec![vec![1, 2, 3, 4]]);
    assert_eq!(pages.pages, -4);
}

#[test]
fn read_processed_book_in_order() {
    let mut b = book(7);
    let mut pages = b.process_book(3);
    assert_eq!(pages.pages as usize, pages.items.len());
    let mut read = Vec::new();
    for _ in 0..5 {
        read.push(pages.next());
    }
    assert_eq!(read, vec![Some(vec![1, 2, 3]), Some(vec![4, 5, 6]), Some(vec![7]), None, None]);
    assert_eq!(pages.current_page, 3);
    let glued: Vec<i32> = read.into_iter().flatten().flatten().collect();
    assert_eq!(glued, b.items);
}
