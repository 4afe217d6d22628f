use vrr::image_loader::{ImageLoader, ImageRef, ImageRequest};
use vrr::layers::{prune_cycle, Layer, Layers, Orientation};
use vrr::locality::locality_window;
use vrr::texture::ImageResolution;

fn layer(path: &str, resolution: ImageResolution, id: u32) -> Layer<u32> {
    Layer {
        image_ref: ImageRef::new(path.to_string()),
        resolution,
        orientation: Orientation::Normal,
        resources: id,
    }
}

#[test]
fn window_order_and_size() {
    assert_eq!(locality_window(5, 2, 1), vec![2, 3, 1]);
    assert_eq!(locality_window(5, 0, 1), vec![0, 1, 4]);
    assert_eq!(locality_window(5, 4, 2), vec![4, 0, 3, 1, 2]);
    assert_eq!(locality_window(1, 0, 3), vec![0]);
    assert_eq!(locality_window(4, 1, 0), vec![1]);
}

#[test]
fn window_is_deduplicated_on_small_catalogs() {
    assert_eq!(locality_window(4, 0, 2), vec![0, 1, 3, 2]);
    assert_eq!(locality_window(4, 0, 10), vec![0, 1, 3, 2]);
    assert_eq!(locality_window(2, 1, 5), vec![1, 0]);
    assert_eq!(locality_window(3, 1, usize::MAX), vec![1, 2, 0]);
    let w = locality_window(6, 3, 100);
    assert_eq!(w.len(), 6);
    let mut sorted = w.clone();
    sorted.sort();
    assert_eq!(sorted, vec![0, 1, 2, 3, 4, 5]);
}

#[test]
fn window_is_symmetric() {
    let len = 9;
    let cursor = 7;
    let w = locality_window(len, cursor, 3);
    assert_eq!(w.len(), 7);
    for d in 1..=3 {
        assert!(w.contains(&((cursor + d) % len)));
        assert!(w.contains(&((cursor + len - d) % len)));
    }
    assert!(!w.contains(&3));
}

#[test]
fn best_layer_is_highest_resolution() {
    let mut layers: Layers<u32> = Layers::new();
    assert!(layers.get_layer(&ImageRef::new("A".to_string())).is_none());
    layers.add_layer(layer("A", ImageResolution::THUMBNAIL, 1));
    layers.add_layer(layer("A", ImageResolution::NATIVE, 2));
    layers.add_layer(layer("A", ImageResolution::FULLHD, 3));
    layers.add_layer(layer("B", ImageResolution::THUMBNAIL, 4));
    let best = layers.get_layer(&ImageRef::new("A".to_string())).unwrap();
    assert_eq!(best.resolution, ImageResolution::NATIVE);
    assert_eq!(best.resources, 2);
    let b = layers.get_layer(&ImageRef::new("B".to_string())).unwrap();
    assert_eq!(b.resources, 4);
    assert!(layers.contains_image(&ImageRef::new("B".to_string())));
    assert!(!layers.contains_image(&ImageRef::new("C".to_string())));
}

#[test]
fn same_resolution_replaces() {
    let mut layers: Layers<u32> = Layers::new();
    layers.add_layer(layer("A", ImageResolution::NATIVE, 1));
    layers.add_layer(layer("A", ImageResolution::THUMBNAIL, 2));
    assert_eq!(layers.len(), 2);
    layers.add_layer(layer("A", ImageResolution::NATIVE, 3));
    assert_eq!(layers.len(), 2);
    let best = layers.get_layer(&ImageRef::new("A".to_string())).unwrap();
    assert_eq!(best.resources, 3);
}

#[test]
fn retain_follows_requests() {
    let mut layers: Layers<u32> = Layers::new();
    layers.add_layer(layer("A", ImageResolution::NATIVE, 1));
    layers.add_layer(layer("A", ImageResolution::THUMBNAIL, 2));
    layers.add_layer(layer("B", ImageResolution::NATIVE, 3));
    let keep = vec![
        ImageRequest::new(ImageRef::new("A".to_string()), ImageResolution::THUMBNAIL),
        ImageRequest::new(ImageRef::new("C".to_string()), ImageResolution::NATIVE),
    ];
    layers.retain(&keep);
    assert_eq!(layers.len(), 1);
    assert_eq!(
        layers.get_layer(&ImageRef::new("A".to_string())).unwrap().resources,
        2
    );
    assert!(!layers.contains_image(&ImageRef::new("B".to_string())));
}

#[test]
fn layers_follow_table_after_prune_cycle() {
    let names: Vec<String> = ["A", "B", "C", "D", "E", "F"].iter().map(|s| s.to_string()).collect();
    let mut loader = ImageLoader::from_paths(names, 1);
    loader.preload(1).unwrap();
    let mut layers: Layers<u32> = Layers::new();
    for (i, task) in loader.take_tasks().into_iter().enumerate() {
        loader.complete(&task.request, true);
        layers.add_layer(Layer {
            image_ref: task.request.reference.clone(),
            resolution: task.request.resolution,
            orientation: Orientation::Unspecified,
            resources: i as u32,
        });
    }
    assert_eq!(layers.len(), 3);
    loader.set(3).unwrap();
    prune_cycle(&mut loader, &mut layers);
    let cached = loader.cached();
    assert_eq!(cached.len(), 3);
    for name in ["A", "B", "C", "D", "E", "F"] {
        let iref = ImageRef::new(name.to_string());
        if let Some(l) = layers.get_layer(&iref) {
            assert!(cached
                .iter()
                .any(|r| r.reference.path == name && r.resolution == l.resolution));
        }
    }
    assert!(layers.get_layer(&ImageRef::new("A".to_string())).is_none());
    assert!(layers.get_layer(&ImageRef::new("B".to_string())).is_none());
}
