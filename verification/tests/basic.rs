use fanpipe::boxes::ClosedBox;
use fanpipe::boxes::OpenBox;

#[test]
fn it_works() {
    assert_eq!(2 + 2, 4);
}

#[test]
fn open_box_exposes_contents() {
    let open_box = OpenBox { contents: "public information" };
    assert_eq!(open_box.contents, "public information");
}

#[test]
fn closed_box_round_trip() {
    let closed_box = ClosedBox::new("classified information");
    assert_eq!(closed_box.into_contents(), "classified information");
}

#[test]
fn closed_box_carries_owned_chunk() {
    let sealed = ClosedBox::new(vec![1u8, 2, 3]);
    assert_eq!(sealed.into_contents(), vec![1u8, 2, 3]);
}
