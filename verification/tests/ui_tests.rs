use bolos::ui::handle_message;
use bolos::ui::DisplayableItem;

#[test]
fn page_input() {
    const MSG: &[u8] = b"deadbeef";

    let mut out = vec![42u8; 5];

    let pages = handle_message(MSG, &mut out, 0).unwrap();
    assert_eq!(pages, 2);

    assert_eq!(&out[..4], &MSG[..4]);
    assert_eq!(out[4], 0);

    let pages = handle_message(MSG, &mut out, 1).unwrap();
    assert_eq!(pages, 2);

    assert_eq!(&out[..4], &MSG[4..]);
    assert_eq!(out[4], 0);

    assert!(handle_message(MSG, &mut out, 2).is_none());
}

#[test]
fn single_page_input() {
    const MSG: &[u8] = b"deadbeef";

    let mut out = vec![42u8; 10];

    let pages = handle_message(MSG, &mut out, 0).unwrap();
    assert_eq!(pages, 1);

    assert_eq!(&out[..8], &MSG[..]);
    assert_eq!(out[8], 0);

    // rest untouched
    assert_eq!(out[9], 42);

    // always gonna write the entire message, no matter the page
    // (since it fits in one page)
    assert!(handle_message(MSG, &mut out, 1).is_some());
}

struct Memo<'a> {
    text: &'a [u8],
}

impl bolos::ui::DisplayableItem for Memo<'_> {
    fn num_items(&self) -> usize {
        1
    }

    fn render_item(
        &self,
        item_n: u8,
        title: &mut Vec<u8>,
        message: &mut Vec<u8>,
        page: u8,
    ) -> Result<u8, bolos::ui::ViewError> {
        if item_n != 0 {
            return Err(bolos::ui::ViewError::NoData);
        }
        if title.len() >= 5 {
            title[..4].copy_from_slice(b"Memo");
            title[4] = 0;
        }
        handle_message(self.text, message, page).ok_or(bolos::ui::ViewError::NoData)
    }
}

#[test]
fn displayable_item_pages_through_content() {

    let memo = Memo { text: b"deadbeef" };
    assert_eq!(memo.num_items(), 1);

    let mut title = vec![0u8; 8];
    let mut message = vec![0u8; 5];
    let pages = memo.render_item(0, &mut title, &mut message, 0).unwrap();
    assert_eq!(pages, 2);
    assert_eq!(&title[..4], b"Memo");
    assert_eq!(&message[..4], b"dead");

    let r = memo.render_item(1, &mut title, &mut message, 0);
    assert!(r.is_err());
    assert_eq!(
        bolos::ui::view_error_to_apdu(r.err().unwrap()),
        bolos::ApduError::ExecutionError
    );
}
