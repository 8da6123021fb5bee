use lyon_path::math::point;
use lyon_path::Path;
use repose_scene::effects::{Effects, TextEffect};
use repose_scene::single::Single;

fn single(x: f32) -> Single {
    Single::from_bits(x.to_bits())
}

fn triangle() -> Path {
    let mut builder = Path::builder();
    builder.begin(point(1.0, 2.0));
    builder.line_to(point(3.0, 4.0));
    builder.line_to(point(5.0, 0.5));
    builder.close();
    builder.build()
}

#[test]
fn a_list_keeps_its_effects_in_order() {
    for n in 0..7usize {
        let list: Vec<TextEffect> =
            (0..n).map(|i| TextEffect::Blur { radius: single(i as f32) }).collect();
        let effects = Effects::from_vec(list);
        let radii: Vec<Single> = effects
            .as_slice()
            .iter()
            .map(|e| match e {
                TextEffect::Blur { radius } => *radius,
                _ => panic!("only blurs were put in"),
            })
            .collect();
        let want: Vec<Single> = (0..n).map(|i| single(i as f32)).collect();
        assert_eq!(radii, want);
    }
}

#[test]
fn a_cloned_clip_has_the_same_path() {
    let effect = TextEffect::VectorClip { path: triangle(), inverse: true };
    let copy = effect.clone();
    drop(effect);
    match copy {
        TextEffect::VectorClip { path, inverse } => {
            assert!(inverse);
            let events: Vec<String> = path.iter().map(|e| format!("{e:?}")).collect();
            let want: Vec<String> = triangle().iter().map(|e| format!("{e:?}")).collect();
            assert_eq!(events, want);
            assert_eq!(events.len(), 4);
        }
        _ => panic!("a clip was expected"),
    }
}

#[test]
fn clones_of_every_effect_read_alike() {
    let white = [255, 255, 255, 255];
    let effects = [
        TextEffect::Bold,
        TextEffect::Italic,
        TextEffect::Underline,
        TextEffect::Strikethrough,
        TextEffect::Outline { color: white, width_x: single(1.0), width_y: single(2.0) },
        TextEffect::Shadow { color: white, x_offset: single(3.0), y_offset: single(4.0) },
        TextEffect::Blur { radius: single(5.0) },
        TextEffect::EdgeBlur { radius: single(6.0) },
        TextEffect::Karaoke { progress: single(0.25), style: 1, secondary: [1, 2, 3, 4] },
        TextEffect::Rotation {
            x: single(7.0),
            y: single(8.0),
            z: single(9.0),
            origin: Some((single(10.0), single(11.0))),
        },
        TextEffect::Shear { x: single(12.0), y: single(13.0) },
        TextEffect::Scale { x: single(14.0), y: single(15.0) },
        TextEffect::Clip {
            x1: single(16.0),
            y1: single(17.0),
            x2: single(18.0),
            y2: single(19.0),
            inverse: true,
        },
        TextEffect::OpaqueBox { color: white, padding: single(20.0) },
    ];
    for effect in &effects {
        assert_eq!(format!("{:?}", effect.clone()), format!("{effect:?}"));
    }
}
