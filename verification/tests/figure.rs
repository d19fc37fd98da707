use port::figure::{figure_html, image_html, is_image, is_video, video_html};

#[test]
fn image_figure_text() {
    assert_eq!(
        image_html("a.png", "A title", "A caption"),
        "<figure>\n            <a href=\"a.png\" title=\"A title\">\n            <img src=\"a.png\" title=\"A title\">\n            </a>\n            <figcaption>A caption</figcaption>\n            </figure>"
    );
}

#[test]
fn video_figure_text() {
    assert_eq!(
        video_html("clip.mp4", "T", "C"),
        "<figure>\n            <video autoplay loop muted src=\"clip.mp4\" title=\"T\" />\n            <figcaption>C</figcaption>\n            </figure>"
    );
}

#[test]
fn figure_text_is_not_escaped() {
    let html = image_html("a.png", "\"q\"", "<b>bold</b>");
    assert!(html.contains("title=\"\"q\"\""));
    assert!(html.contains("<figcaption><b>bold</b></figcaption>"));
}

#[test]
fn image_extensions() {
    assert!(is_image("x.png"));
    assert!(is_image("x.jpg"));
    assert!(is_image("x.jpeg"));
    assert!(is_image("dir/x.webp"));
    assert!(!is_image("x.gif"));
    assert!(!is_image("x.mp4"));
    assert!(!is_image("x.png.txt"));
    assert!(!is_image("png"));
    assert!(!is_image(""));
    assert!(is_image(".png"));
}

#[test]
fn video_extensions() {
    assert!(is_video("x.mp4"));
    assert!(!is_video("x.mp3"));
    assert!(!is_video("x.MP4"));
    assert!(!is_video("mp4"));
}

#[test]
fn figure_picks_by_address() {
    assert_eq!(figure_html("a.mp4", "t", "c"), video_html("a.mp4", "t", "c"));
    assert_eq!(figure_html("a.jpg", "t", "c"), image_html("a.jpg", "t", "c"));
    assert_eq!(figure_html("a.bin", "t", "c"), image_html("a.bin", "t", "c"));
}
