use vrr::image_loader::{
    debounce_delay_ms, DecodeTask, ImageLoader, ImageRef, ImageRequest, LoaderError, RequestTable,
};
use vrr::texture::ImageResolution;
use vrr::texture::ImageResolution::{NATIVE, THUMBNAIL};

fn catalog(names: &[&str]) -> Vec<String> {
    names.iter().map(|n| n.to_string()).collect()
}

fn req(path: &str, resolution: ImageResolution) -> ImageRequest {
    ImageRequest::new(ImageRef::new(path.to_string()), resolution)
}

fn task_paths(tasks: &[DecodeTask]) -> Vec<(String, ImageResolution)> {
    tasks
        .iter()
        .map(|t| (t.request.reference.path.clone(), t.request.resolution))
        .collect()
}

fn cached_paths(loader: &ImageLoader) -> Vec<(String, ImageResolution)> {
    loader
        .cached()
        .iter()
        .map(|r| (r.reference.path.clone(), r.resolution))
        .collect()
}

fn pair(path: &str, resolution: ImageResolution) -> (String, ImageResolution) {
    (path.to_string(), resolution)
}

#[test]
fn preload_then_next_covers_window() {
    let mut loader = ImageLoader::from_paths(catalog(&["A", "B", "C", "D", "E"]), 1);
    assert_eq!(loader.take_tasks().len(), 1);
    loader.set(2).unwrap();
    loader.clear_cache();
    loader.take_tasks();
    assert_eq!(cached_paths(&loader), vec![pair("C", NATIVE)]);

    loader.preload(1).unwrap();
    let issued = task_paths(&loader.take_tasks());
    assert_eq!(issued, vec![pair("D", NATIVE), pair("B", NATIVE)]);
    assert_eq!(
        cached_paths(&loader),
        vec![pair("C", NATIVE), pair("D", NATIVE), pair("B", NATIVE)]
    );

    loader.next_image().unwrap();
    assert_eq!(loader.current().path, "D");
    assert!(loader.take_tasks().is_empty());
    loader.preload(1).unwrap();
    assert_eq!(task_paths(&loader.take_tasks()), vec![pair("E", NATIVE)]);

    loader.clear_cache();
    assert_eq!(
        cached_paths(&loader),
        vec![pair("C", NATIVE), pair("D", NATIVE), pair("E", NATIVE)]
    );
}

#[test]
fn double_submit_gives_one_task() {
    let mut loader = ImageLoader::from_paths(catalog(&["A", "B"]), 1);
    loader.take_tasks();
    let mut table = RequestTable::new();
    let r = req("A", ImageResolution::NATIVE);
    let first = table.submit(&r);
    let second = table.submit(&r);
    assert!(first.is_some());
    assert!(second.is_none());
    assert_eq!(table.len(), 1);
    assert_eq!(table.count_pending(), 1);
    assert!(table.contains(&r));

    loader.request_image(&req("B", ImageResolution::NATIVE));
    loader.request_image(&req("B", ImageResolution::NATIVE));
    let tasks = loader.take_tasks();
    assert_eq!(task_paths(&tasks), vec![pair("B", ImageResolution::NATIVE)]);
    assert_eq!(
        cached_paths(&loader)
            .iter()
            .filter(|p| p.0 == "B")
            .count(),
        1
    );
}

#[test]
fn thumbnail_survives_prune() {
    let names = ["A", "B", "C", "D", "E", "F", "G", "H"];
    let mut loader = ImageLoader::from_paths(catalog(&names), 1);
    loader.request_image(&req("B", THUMBNAIL));
    loader.request_image(&req("B", NATIVE));
    for task in loader.take_tasks() {
        assert!(loader.is_requested(&task.request));
        assert!(loader.complete(&task.request, true));
    }
    loader.set(5).unwrap();
    loader.clear_cache();
    let cached = cached_paths(&loader);
    assert!(cached.contains(&pair("B", THUMBNAIL)));
    assert!(!cached.contains(&pair("B", NATIVE)));
    assert!(!cached.contains(&pair("A", NATIVE)));
    assert!(cached.contains(&pair("F", NATIVE)));
}

#[test]
fn explicit_prune_keeps_exempt_resolution() {
    let mut table = RequestTable::new();
    table.submit(&req("B", THUMBNAIL));
    table.submit(&req("B", NATIVE));
    table.submit(&req("X", NATIVE));
    let keep = vec![ImageRef::new("X".to_string()), ImageRef::new("Y".to_string())];
    table.prune(&keep, THUMBNAIL);
    let left: Vec<(String, ImageResolution)> = table
        .snapshot()
        .iter()
        .map(|r| (r.reference.path.clone(), r.resolution))
        .collect();
    assert_eq!(left, vec![pair("B", THUMBNAIL), pair("X", NATIVE)]);
}

#[test]
fn pruned_request_is_stale() {
    let mut loader = ImageLoader::from_paths(catalog(&["A", "B", "C", "D", "E", "F", "G"]), 1);
    loader.take_tasks();
    loader.request_image(&req("D", NATIVE));
    let tasks = loader.take_tasks();
    assert_eq!(tasks.len(), 1);
    loader.clear_cache();
    assert!(!loader.is_requested(&tasks[0].request));
    assert!(!loader.complete(&tasks[0].request, true));
    assert!(!cached_paths(&loader).contains(&pair("D", NATIVE)));
}

#[test]
fn undelivered_result_leaves_entry_pending() {
    let mut loader = ImageLoader::from_paths(catalog(&["A"]), 0);
    let tasks = loader.take_tasks();
    assert_eq!(tasks.len(), 1);
    assert!(!loader.complete(&tasks[0].request, false));
    assert!(loader.is_requested(&tasks[0].request));
    let again = req("A", ImageResolution::NATIVE);
    loader.request_image(&again);
    assert!(loader.take_tasks().is_empty());
}

#[test]
fn debounce_delays() {
    assert_eq!(debounce_delay_ms(0), 0);
    assert_eq!(debounce_delay_ms(1), 10);
    assert_eq!(debounce_delay_ms(5), 10);
    assert_eq!(debounce_delay_ms(6), 100);
    assert_eq!(debounce_delay_ms(usize::MAX), 100);
}

#[test]
fn task_delay_counts_contending_entries() {
    let mut table = RequestTable::new();
    assert_eq!(table.submit(&req("T", THUMBNAIL)).unwrap().delay_ms, 0);
    assert_eq!(table.submit(&req("A", NATIVE)).unwrap().delay_ms, 0);
    assert_eq!(table.count_pending(), 1);
    assert_eq!(table.submit(&req("B", NATIVE)).unwrap().delay_ms, 10);
    for name in ["C", "D", "E", "F"] {
        table.submit(&req(name, NATIVE));
    }
    assert_eq!(table.count_pending(), 6);
    assert_eq!(table.submit(&req("G", NATIVE)).unwrap().delay_ms, 100);
    table.mark_loaded(&req("A", NATIVE));
    assert_eq!(table.count_pending(), 6);
}

#[test]
fn navigation_wraps_round() {
    let mut loader = ImageLoader::from_paths(catalog(&["A", "B", "C"]), 1);
    assert_eq!(loader.current().path, "A");
    loader.prev_image().unwrap();
    assert_eq!(loader.current().path, "C");
    loader.next_image().unwrap();
    assert_eq!(loader.current().path, "A");
    loader.next_image().unwrap();
    assert_eq!(loader.current().path, "B");
}

#[test]
fn navigation_errors() {
    let mut empty = ImageLoader::from_paths(Vec::new(), 2);
    assert_eq!(empty.next_image(), Err(LoaderError::EmptyCatalog));
    assert_eq!(empty.prev_image(), Err(LoaderError::EmptyCatalog));
    assert_eq!(empty.preload(2), Err(LoaderError::EmptyCatalog));
    assert!(empty.take_tasks().is_empty());
    assert!(empty.get_radius(3).is_empty());

    let mut loader = ImageLoader::from_paths(catalog(&["A", "B"]), 1);
    loader.take_tasks();
    assert_eq!(loader.set(7), Err(LoaderError::NoImageAt(7)));
    assert_eq!(loader.current().path, "A");
    assert!(loader.take_tasks().is_empty());
    assert_eq!(loader.get(2).err(), Some(LoaderError::NoImageAt(2)));
    assert_eq!(loader.get(1).unwrap().path, "B");
    assert_eq!(loader.len(), 2);
}

#[test]
fn thumbnails_for_every_image() {
    let mut loader = ImageLoader::from_paths(catalog(&["A", "B", "C"]), 1);
    loader.take_tasks();
    loader.load_all_thumbnails().unwrap();
    assert_eq!(
        task_paths(&loader.take_tasks()),
        vec![
            pair("A", ImageResolution::THUMBNAIL),
            pair("B", ImageResolution::THUMBNAIL),
            pair("C", ImageResolution::THUMBNAIL)
        ]
    );
}

#[test]
fn radius_lists_window_closest_first() {
    let mut loader = ImageLoader::from_paths(catalog(&["A", "B", "C", "D", "E"]), 2);
    loader.set(0).unwrap();
    let names: Vec<String> = loader.get_radius(2).iter().map(|r| r.path.clone()).collect();
    assert_eq!(names, vec!["A", "B", "E", "C", "D"]);
    assert_eq!(loader.preload_radius(), 2);
}
