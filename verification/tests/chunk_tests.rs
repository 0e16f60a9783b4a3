use bevy_foliage_tool::dimensions::IntVec2;
use bevy_foliage_tool::foliage_chunk::{
    chunk_layers_to_rebuild, update_chunk_active, update_chunk_visible, ChunkVisibility, FoliageChunkActive,
    FoliageHeightMapData,
};
use bevy_foliage_tool::foliage_chunk_layer::{
    check_chunk_layer_sources, height_gradient_readable,
    get_foliage_node_spawn_sample, height_gradient_at, plan_chunk_layer_nodes, ChunkLayerError, FoliageSpawnSample,
    HeightGradient,
};
use bevy_foliage_tool::foliage_density::{FoliageDensityMapU8, FoliageDensityMapsComponent};
use bevy_foliage_tool::foliage_layer::{layer_chunk_placements, ChunkPlacement};
use bevy_foliage_tool::foliage_scene::foliage_scene_file_path;
use bevy_foliage_tool::foliage_types::FoliageDefinition;

fn defs(count: usize) -> Vec<FoliageDefinition> {
    (0..count).map(|i| FoliageDefinition { name: format!("d{}", i), mesh_name: None, material_name: None }).collect()
}

#[test]
fn chunk_placements_of_a_square_layer() {
    let placements = layer_chunk_placements(IntVec2::new(1024, 1024), 8);
    assert_eq!(placements.len(), 64);
    assert_eq!(placements[0], ChunkPlacement { chunk_offset: IntVec2::new(0, 0), translation: IntVec2::new(0, 0) });
    assert_eq!(placements[1], ChunkPlacement { chunk_offset: IntVec2::new(0, 1), translation: IntVec2::new(0, 128) });
    assert_eq!(placements[8 * 3 + 5], ChunkPlacement { chunk_offset: IntVec2::new(3, 5), translation: IntVec2::new(384, 640) });
}

#[test]
fn chunk_placements_round_toward_zero() {
    let placements = layer_chunk_placements(IntVec2::new(-10, 7), 3);
    assert_eq!(placements.len(), 9);
    assert_eq!(placements[2 * 3 + 1], ChunkPlacement { chunk_offset: IntVec2::new(2, 1), translation: IntVec2::new(-6, 2) });
}

#[test]
fn no_chunk_rows_means_no_chunks() {
    assert!(layer_chunk_placements(IntVec2::new(64, 64), 0).is_empty());
}

#[test]
fn chunk_activity_follows_render_distance() {
    let mut active = FoliageChunkActive::default();
    assert_eq!(active, FoliageChunkActive::Deactivated);
    assert!(update_chunk_active(&mut active, true));
    assert_eq!(active, FoliageChunkActive::Activated);
    assert!(!update_chunk_active(&mut active, true));
    assert!(update_chunk_active(&mut active, false));
    assert_eq!(active, FoliageChunkActive::Deactivated);
    assert!(!update_chunk_active(&mut active, false));
}

#[test]
fn chunk_visibility_follows_activity() {
    assert_eq!(update_chunk_visible(FoliageChunkActive::Activated), ChunkVisibility::Inherited);
    assert_eq!(update_chunk_visible(FoliageChunkActive::Deactivated), ChunkVisibility::Hidden);
}

#[test]
fn rebuild_gives_active_chunks_every_layer() {
    let maps = FoliageDensityMapsComponent::new(IntVec2::new(2, 2), defs(3));
    let mut layers = chunk_layers_to_rebuild(FoliageChunkActive::Activated, &maps);
    layers.sort();
    assert_eq!(layers, vec![0, 1, 2]);
    assert!(chunk_layers_to_rebuild(FoliageChunkActive::Deactivated, &maps).is_empty());
}

#[test]
fn spawn_needs_density_at_least_noise() {
    let heights = FoliageHeightMapData(vec![vec![5, 6], vec![7, 8]]);
    let density = FoliageDensityMapU8(vec![vec![10, 200], vec![0, 255]]);
    let noise = Some(vec![100u8; 512]);
    assert_eq!(get_foliage_node_spawn_sample(0, 0, &heights, &density, &noise), None);
    assert_eq!(
        get_foliage_node_spawn_sample(1, 0, &heights, &density, &noise),
        Some(FoliageSpawnSample { x: 1, y: 0, height: 6, density: 200, noise: 100 })
    );
    assert_eq!(
        get_foliage_node_spawn_sample(1, 1, &heights, &density, &noise),
        Some(FoliageSpawnSample { x: 1, y: 1, height: 8, density: 255, noise: 100 })
    );
}

#[test]
fn equal_density_and_noise_spawns() {
    let heights = FoliageHeightMapData(vec![vec![3]]);
    let density = FoliageDensityMapU8(vec![vec![5]]);
    let noise = Some(vec![5u8]);
    assert_eq!(
        get_foliage_node_spawn_sample(0, 0, &heights, &density, &noise),
        Some(FoliageSpawnSample { x: 0, y: 0, height: 3, density: 5, noise: 5 })
    );
}

#[test]
fn unpainted_cells_spawn_nothing() {
    let heights = FoliageHeightMapData(vec![vec![0]]);
    let density = FoliageDensityMapU8(vec![vec![0]]);
    assert_eq!(get_foliage_node_spawn_sample(0, 0, &heights, &density, &Some(vec![0u8])), None);
    let maps = FoliageDensityMapsComponent::new(IntVec2::new(2, 2), defs(1));
    let heights = FoliageHeightMapData(vec![vec![0; 2]; 2]);
    let nodes = plan_chunk_layer_nodes(0, 1, 0, &defs(1), &maps, IntVec2::new(2, 2), &heights, &Some(vec![0u8; 4])).unwrap();
    assert!(nodes.is_empty());
}

#[test]
fn chunk_layer_sources_are_checked_in_order() {
    let maps = FoliageDensityMapsComponent::new(IntVec2::new(2, 2), defs(1));
    assert_eq!(check_chunk_layer_sources(0, &defs(1), &maps), Ok(()));
    assert_eq!(check_chunk_layer_sources(2, &defs(1), &maps), Err(ChunkLayerError::MissingDefinition));
    assert_eq!(check_chunk_layer_sources(2, &defs(3), &maps), Err(ChunkLayerError::MissingDensityMap));
}

#[test]
fn no_noise_texture_spawns_nothing() {
    let heights = FoliageHeightMapData(vec![vec![3]]);
    let density = FoliageDensityMapU8(vec![vec![255]]);
    assert_eq!(get_foliage_node_spawn_sample(0, 0, &heights, &density, &None), None);
}

#[test]
fn noise_index_wraps_around() {
    let heights = FoliageHeightMapData(vec![vec![0, 0], vec![0, 0]]);
    let density = FoliageDensityMapU8(vec![vec![50, 50], vec![50, 50]]);
    // point (1, 1) reads texel (1 * 256 + 1) % 3 == 2
    let noise = Some(vec![0u8, 0, 60]);
    assert_eq!(get_foliage_node_spawn_sample(1, 1, &heights, &density, &noise), None);
    assert!(get_foliage_node_spawn_sample(0, 1, &heights, &density, &noise).is_some());
}

#[test]
fn plan_reports_missing_definition_first() {
    let maps = FoliageDensityMapsComponent::new(IntVec2::new(4, 4), defs(1));
    let heights = FoliageHeightMapData(vec![vec![0; 4]; 4]);
    let result = plan_chunk_layer_nodes(0, 1, 5, &defs(1), &maps, IntVec2::new(4, 4), &heights, &Some(vec![0]));
    assert_eq!(result, Err(ChunkLayerError::MissingDefinition));
}

#[test]
fn plan_reports_missing_density_map() {
    let maps = FoliageDensityMapsComponent::new(IntVec2::new(4, 4), defs(1));
    let heights = FoliageHeightMapData(vec![vec![0; 4]; 4]);
    let result = plan_chunk_layer_nodes(0, 1, 2, &defs(3), &maps, IntVec2::new(4, 4), &heights, &Some(vec![0]));
    assert_eq!(result, Err(ChunkLayerError::MissingDensityMap));
}

#[test]
fn plan_samples_every_second_point_of_the_chunk() {
    let mut maps = FoliageDensityMapsComponent::new(IntVec2::new(6, 6), defs(1));
    {
        let layer = maps.layer_mut(0).unwrap();
        // chunk 1 of a 2-per-row grid of 3x3 chunks starts at column 3
        layer.0[0][3] = 100;
        layer.0[0][5] = 20;
        layer.0[2][3] = 50;
        layer.0[2][5] = 100;
    }
    let heights = FoliageHeightMapData(vec![vec![1, 2, 3], vec![4, 5, 6], vec![7, 8, 9]]);
    let noise = Some(vec![30u8; 1024]);
    let nodes = plan_chunk_layer_nodes(1, 2, 0, &defs(1), &maps, IntVec2::new(3, 3), &heights, &noise).unwrap();
    assert_eq!(
        nodes,
        vec![
            FoliageSpawnSample { x: 0, y: 0, height: 1, density: 100, noise: 30 },
            FoliageSpawnSample { x: 0, y: 2, height: 7, density: 50, noise: 30 },
            FoliageSpawnSample { x: 2, y: 2, height: 9, density: 100, noise: 30 },
        ]
    );
}

#[test]
fn plan_without_noise_has_no_nodes() {
    let maps = FoliageDensityMapsComponent::new(IntVec2::new(2, 2), defs(1));
    let heights = FoliageHeightMapData(vec![vec![0; 2]; 2]);
    let nodes = plan_chunk_layer_nodes(0, 1, 0, &defs(1), &maps, IntVec2::new(2, 2), &heights, &None).unwrap();
    assert!(nodes.is_empty());
}

#[test]
fn gradient_is_flat_on_the_border() {
    let heights = FoliageHeightMapData(vec![vec![0, 1, 2], vec![3, 4, 5], vec![6, 7, 8]]);
    assert_eq!(height_gradient_at(&heights, 0, 1), None);
    assert_eq!(height_gradient_at(&heights, 1, 0), None);
    assert_eq!(height_gradient_at(&heights, 2, 1), None);
    assert_eq!(height_gradient_at(&heights, 1, 2), None);
}

#[test]
fn gradient_inside_uses_opposite_neighbours() {
    let heights = FoliageHeightMapData(vec![vec![0, 10, 0], vec![4, 0, 1], vec![0, 3, 0]]);
    assert_eq!(height_gradient_at(&heights, 1, 1), Some(HeightGradient { dx: -3, dz: -7 }));
}

#[test]
fn scene_file_path_joins_folder_and_name() {
    assert_eq!(foliage_scene_file_path("assets/foliage/", "world.foliage"), "assets/foliage/world.foliage");
    assert_eq!(foliage_scene_file_path("", "a"), "a");
}

#[test]
fn chunk_layer_inputs_are_checked() {
    let maps = FoliageDensityMapsComponent::new(IntVec2::new(4, 4), defs(1));
    let full = FoliageHeightMapData(vec![vec![0; 4]; 4]);
    let short = FoliageHeightMapData(vec![vec![0; 4]; 2]);
    let noise = Some(vec![1u8; 4]);
    assert!(bevy_foliage_tool::foliage_chunk_layer::chunk_layer_inputs_ok(0, 1, 0, &defs(1), &maps, IntVec2::new(4, 4), &full, &noise));
    // row 2 is sampled but the height map has only two rows
    assert!(!bevy_foliage_tool::foliage_chunk_layer::chunk_layer_inputs_ok(0, 1, 0, &defs(1), &maps, IntVec2::new(4, 4), &short, &noise));
    // an empty noise texture cannot be sampled
    assert!(!bevy_foliage_tool::foliage_chunk_layer::chunk_layer_inputs_ok(0, 1, 0, &defs(1), &maps, IntVec2::new(4, 4), &full, &Some(Vec::new())));
    // zero chunks per row cannot be numbered
    assert!(!bevy_foliage_tool::foliage_chunk_layer::chunk_layer_inputs_ok(0, 0, 0, &defs(1), &maps, IntVec2::new(4, 4), &full, &noise));
    // a missing layer stops the build before anything is read
    assert!(bevy_foliage_tool::foliage_chunk_layer::chunk_layer_inputs_ok(0, 0, 3, &defs(1), &maps, IntVec2::new(4, 4), &short, &None));
}

#[test]
fn gradient_readability_is_checked() {
    assert!(!height_gradient_readable(&FoliageHeightMapData(Vec::new()), 0, 0));
    let ragged = FoliageHeightMapData(vec![vec![0, 0, 0], vec![0, 0], vec![0, 0, 0]]);
    assert!(!height_gradient_readable(&ragged, 1, 1));
    assert!(height_gradient_readable(&ragged, 0, 1));
    let empty_first = FoliageHeightMapData(vec![vec![], vec![0, 0, 0], vec![0]]);
    assert!(!height_gradient_readable(&empty_first, 1, 1));
    let square = FoliageHeightMapData(vec![vec![0; 3]; 3]);
    assert!(height_gradient_readable(&square, 1, 1));
}

#[test]
fn chunk_ids_count_row_by_row() {
    let id = bevy_foliage_tool::foliage_layer::chunk_id_at;
    assert_eq!(id(IntVec2::new(0, 0), 8), Some(0));
    assert_eq!(id(IntVec2::new(3, 5), 8), Some(43));
    assert_eq!(id(IntVec2::new(8, 0), 8), None);
    assert_eq!(id(IntVec2::new(-1, 0), 8), None);
    assert_eq!(id(IntVec2::new(0, -1), 8), None);
    assert_eq!(id(IntVec2::new(1, i32::MAX), 4), None);
}

#[test]
fn chunk_id_finds_the_chunks_density() {
    let mut grid = FoliageDensityMapU8::new(IntVec2::new(6, 4));
    grid.0[2][3] = 9;
    let chunk = bevy_foliage_tool::foliage_layer::chunk_id_at(IntVec2::new(1, 1), 2).unwrap();
    let sub = grid.get_sub_section_by_chunk_id(chunk, 2, IntVec2::new(3, 2));
    assert_eq!(sub.0, vec![vec![9, 0, 0], vec![0, 0, 0]]);
}
