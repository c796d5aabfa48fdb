use vstd::prelude::*;

verus! {

/// The video a party watches together.
#[derive(Debug)]
pub struct Video {
    pub video_url: String,
}

/// The mathematical content of a `Video`.
pub struct VideoView {
    pub video_url: Seq<char>,
}

impl View for Video {
    type V = VideoView;

    open spec fn view(&self) -> VideoView {
        VideoView { video_url: self.video_url@ }
    }
}

impl Video {
    pub fn new(video_url: &str) -> (v: Video)
        ensures
            v@.video_url == video_url@,
    {
        Video { video_url: video_url.to_owned() }
    }
}

impl Default for Video {
    fn default() -> (v: Video)
        ensures
            v@.video_url == Seq::<char>::empty(),
    {
        Video { video_url: String::new() }
    }
}

impl Clone for Video {
    fn clone(&self) -> (r: Video)
        ensures
            r@ == self@,
    {
        Video { video_url: self.video_url.clone() }
    }
}

} // verus!
