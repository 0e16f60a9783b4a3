use bevy_foliage_tool::dimensions::IntVec2;
use bevy_foliage_tool::foliage_density::{FoliageDensityMapU8, FoliageDensityMapsComponent};
use bevy_foliage_tool::foliage_layer::{FoliageBaseHeightMapU16, FoliageBaseNormalMapU16, FoliageLayerData};
use bevy_foliage_tool::foliage_types::{FoliageDefinition, FoliageMaterialPreset};

fn counting_grid(width: usize, height: usize) -> FoliageDensityMapU8 {
    let mut rows = Vec::new();
    for y in 0..height {
        let mut row = Vec::new();
        for x in 0..width {
            row.push((y * width + x) as u8);
        }
        rows.push(row);
    }
    FoliageDensityMapU8(rows)
}

fn definitions(count: usize) -> Vec<FoliageDefinition> {
    (0..count)
        .map(|i| FoliageDefinition {
            name: format!("layer{}", i),
            mesh_name: Some("grass1".to_string()),
            material_name: None,
        })
        .collect()
}

#[test]
fn new_density_map_is_zero_with_given_shape() {
    let map = FoliageDensityMapU8::new(IntVec2::new(3, 2));
    assert_eq!(map.0, vec![vec![0u8; 3]; 2]);
}

#[test]
fn new_density_map_of_zero_size_is_empty() {
    let map = FoliageDensityMapU8::new(IntVec2::new(5, 0));
    assert!(map.0.is_empty());
    let map = FoliageDensityMapU8::new(IntVec2::new(0, 2));
    assert_eq!(map.0, vec![Vec::<u8>::new(), Vec::new()]);
}

#[test]
fn sub_section_copies_the_chunk() {
    let grid = counting_grid(4, 4);
    let first = grid.get_sub_section_by_chunk_id(0, 2, IntVec2::new(2, 2));
    assert_eq!(first.0, vec![vec![0, 1], vec![4, 5]]);
    let second = grid.get_sub_section_by_chunk_id(1, 2, IntVec2::new(2, 2));
    assert_eq!(second.0, vec![vec![2, 3], vec![6, 7]]);
    let last = grid.get_sub_section_by_chunk_id(3, 2, IntVec2::new(2, 2));
    assert_eq!(last.0, vec![vec![10, 11], vec![14, 15]]);
}

#[test]
fn sub_section_past_the_edge_is_zero() {
    let grid = counting_grid(4, 4);
    let outside = grid.get_sub_section_by_chunk_id(5, 2, IntVec2::new(2, 2));
    assert_eq!(outside.0, vec![vec![0, 0], vec![0, 0]]);
    let partial = grid.get_sub_section_by_chunk_id(1, 2, IntVec2::new(3, 3));
    assert_eq!(partial.0, vec![vec![3, 0, 0], vec![7, 0, 0], vec![11, 0, 0]]);
}

#[test]
fn sub_section_of_empty_map_is_zero() {
    let grid = FoliageDensityMapU8(Vec::new());
    let sub = grid.get_sub_section_by_chunk_id(0, 1, IntVec2::new(2, 1));
    assert_eq!(sub.0, vec![vec![0, 0]]);
}

#[test]
fn chunks_tile_the_grid() {
    let grid = counting_grid(6, 4);
    let (cw, ch, rows) = (3usize, 2usize, 2u32);
    for y in 0..4usize {
        for x in 0..6usize {
            let id = (y / ch) as u32 * rows + (x / cw) as u32;
            let chunk = grid.get_sub_section_by_chunk_id(id, rows, IntVec2::new(cw as i32, ch as i32));
            assert_eq!(chunk.0[y % ch][x % cw], grid.0[y][x]);
        }
    }
}

#[test]
fn fresh_map_chunks_are_zero() {
    let grid = FoliageDensityMapU8::new(IntVec2::new(8, 8));
    for id in 0..4u32 {
        let chunk = grid.get_sub_section_by_chunk_id(id, 2, IntVec2::new(4, 4));
        assert_eq!(chunk.0, vec![vec![0u8; 4]; 4]);
    }
}

#[test]
fn maps_component_has_one_zero_map_per_definition() {
    let maps = FoliageDensityMapsComponent::new(IntVec2::new(2, 3), definitions(3));
    let mut keys = maps.layer_indices();
    keys.sort();
    assert_eq!(keys, vec![0, 1, 2]);
    for k in 0..3 {
        assert_eq!(maps.layer(k).unwrap().0, vec![vec![0u8; 2]; 3]);
    }
    assert!(maps.layer(3).is_none());
}

#[test]
fn maps_component_without_definitions_is_empty() {
    let maps = FoliageDensityMapsComponent::new(IntVec2::new(2, 3), Vec::new());
    assert!(maps.layer_indices().is_empty());
    assert!(maps.layer(0).is_none());
}

#[test]
fn create_or_load_prefers_loaded_maps() {
    let mut loaded = FoliageDensityMapsComponent::new(IntVec2::new(1, 1), definitions(1));
    loaded.layer_mut(0).unwrap().0[0][0] = 42;
    let maps = FoliageDensityMapsComponent::create_or_load(Some(loaded), IntVec2::new(5, 5), definitions(4));
    assert_eq!(maps.layer_indices(), vec![0]);
    assert_eq!(maps.layer(0).unwrap().0, vec![vec![42u8]]);
}

#[test]
fn create_or_load_makes_fresh_maps_when_nothing_loaded() {
    let maps = FoliageDensityMapsComponent::create_or_load(None, IntVec2::new(2, 1), definitions(2));
    let mut keys = maps.layer_indices();
    keys.sort();
    assert_eq!(keys, vec![0, 1]);
    assert_eq!(maps.layer(1).unwrap().0, vec![vec![0u8, 0u8]]);
}

#[test]
fn layer_mut_writes_into_the_map() {
    let mut maps = FoliageDensityMapsComponent::new(IntVec2::new(2, 2), definitions(2));
    maps.layer_mut(1).unwrap().0[1][0] = 7;
    assert_eq!(maps.layer(1).unwrap().0, vec![vec![0, 0], vec![7, 0]]);
    assert_eq!(maps.layer(0).unwrap().0, vec![vec![0, 0], vec![0, 0]]);
    assert!(maps.layer_mut(9).is_none());
}

#[test]
fn layer_data_starts_empty() {
    let data = FoliageLayerData::new(4, IntVec2::new(2, 2));
    assert_eq!(data.foliage_index, 4);
    assert_eq!(data.density_map.0, vec![vec![0u8; 2]; 2]);
    assert!(data.base_height_map.is_none());
    assert!(data.base_normal_map.is_none());
}

#[test]
fn height_and_normal_maps_start_at_zero() {
    let heights = FoliageBaseHeightMapU16::new(IntVec2::new(3, 1));
    assert_eq!(heights.0, vec![vec![0u16; 3]]);
    let normals = FoliageBaseNormalMapU16::new(IntVec2::new(1, 2));
    assert_eq!(normals.0, vec![vec![0u16], vec![0u16]]);
}

#[test]
fn material_preset_defaults_to_standard() {
    assert_eq!(FoliageMaterialPreset::default(), FoliageMaterialPreset::Standard);
}

#[test]
fn sub_section_arguments_are_checked() {
    let grid = counting_grid(4, 4);
    assert!(grid.sub_section_arguments_ok(3, 2, IntVec2::new(2, 2)));
    assert!(!grid.sub_section_arguments_ok(0, 0, IntVec2::new(2, 2)));
    assert!(!grid.sub_section_arguments_ok(0, 2, IntVec2::new(-1, 2)));
    assert!(!grid.sub_section_arguments_ok(0, 2, IntVec2::new(2, -1)));
}

#[test]
fn short_rows_inside_the_chunk_are_refused() {
    let ragged = FoliageDensityMapU8(vec![vec![1, 2, 3, 4], vec![5]]);
    assert!(!ragged.sub_section_arguments_ok(0, 1, IntVec2::new(2, 2)));
    // a chunk that reads only the first column of the short row is fine
    assert!(ragged.sub_section_arguments_ok(0, 1, IntVec2::new(1, 2)));
    let sub = ragged.get_sub_section_by_chunk_id(0, 1, IntVec2::new(1, 2));
    assert_eq!(sub.0, vec![vec![1], vec![5]]);
    // a chunk that starts past row 0's width reads nothing
    let past = FoliageDensityMapU8(vec![vec![1], vec![]]);
    assert!(past.sub_section_arguments_ok(1, 2, IntVec2::new(3, 2)));
    assert_eq!(past.get_sub_section_by_chunk_id(1, 2, IntVec2::new(3, 2)).0, vec![vec![0, 0, 0], vec![0, 0, 0]]);
}

#[test]
fn no_layers_need_no_size() {
    let maps = FoliageDensityMapsComponent::new(IntVec2::new(-3, -3), Vec::new());
    assert!(maps.layer_indices().is_empty());
}
