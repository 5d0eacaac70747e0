use raytracer::chroma::{channel_attenuation, Chroma};

#[test]
fn channel_tags() {
    assert_eq!(Chroma::from_channel(0), Chroma::Red);
    assert_eq!(Chroma::from_channel(1), Chroma::Green);
    assert_eq!(Chroma::from_channel(2), Chroma::Blue);
}

#[test]
fn white_ray_splits_into_three_channels() {
    let channels = Chroma::White.channels();
    assert_eq!(channels, vec![0, 1, 2]);
    let tags: Vec<Chroma> = channels.iter().map(|c| Chroma::from_channel(*c)).collect();
    assert_eq!(tags, vec![Chroma::Red, Chroma::Green, Chroma::Blue]);
}

#[test]
fn split_ray_is_not_split_again() {
    for chroma in [Chroma::Red, Chroma::Green, Chroma::Blue] {
        let channels = chroma.channels();
        assert_eq!(channels.len(), 1);
        assert_eq!(Chroma::from_channel(channels[0]), chroma);
    }
    assert_eq!(Chroma::Green.channels(), vec![1]);
}

#[test]
fn split_attenuation_keeps_one_channel() {
    let colour = [0.9f64, 0.8, 0.7];
    assert_eq!(channel_attenuation(colour, 0.0, 0), [0.9, 0.0, 0.0]);
    assert_eq!(channel_attenuation(colour, 0.0, 1), [0.0, 0.8, 0.0]);
    assert_eq!(channel_attenuation(colour, 0.0, 2), [0.0, 0.0, 0.7]);
    for c in Chroma::White.channels() {
        let masked = channel_attenuation(colour, 0.0, c);
        assert_eq!(masked.iter().filter(|v| **v != 0.0).count(), 1);
    }
}
