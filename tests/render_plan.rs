use gpui_web::geometry::size;
use gpui_web::render_plan::{
    composite_sprites, plan_frame, BatchSummary, CompositeSprites, PathInfo, PathIntermediateTracker, Pipeline,
    RenderCommand,
};

#[test]
fn quads_paths_underlines_frame() {
    let batches = vec![
        BatchSummary::Quads(3),
        BatchSummary::Paths(vec![PathInfo { order: 5, vertex_count: 6 }, PathInfo { order: 5, vertex_count: 3 }]),
        BatchSummary::Underlines(1),
    ];
    assert_eq!(
        plan_frame(&batches),
        vec![
            RenderCommand::BeginScenePass { clear: true },
            RenderCommand::DrawInstances { pipeline: Pipeline::Quads, batch: 0, first: 0, instance_count: 3 },
            RenderCommand::RasterizePaths { batch: 1, vertex_count: 9 },
            RenderCommand::CompositePaths { batch: 1, sprites: CompositeSprites::PerPath(2) },
            RenderCommand::BeginScenePass { clear: false },
            RenderCommand::DrawInstances { pipeline: Pipeline::Underlines, batch: 2, first: 0, instance_count: 1 },
        ]
    );
}

#[test]
fn mixed_order_paths_use_one_sprite() {
    let paths = vec![PathInfo { order: 1, vertex_count: 3 }, PathInfo { order: 2, vertex_count: 3 }];
    assert_eq!(composite_sprites(&paths), CompositeSprites::Union);
    let plan = plan_frame(&vec![BatchSummary::Paths(paths)]);
    assert_eq!(
        plan,
        vec![
            RenderCommand::BeginScenePass { clear: true },
            RenderCommand::RasterizePaths { batch: 0, vertex_count: 6 },
            RenderCommand::CompositePaths { batch: 0, sprites: CompositeSprites::Union },
        ]
    );
}

#[test]
fn empty_scene_records_nothing() {
    assert_eq!(plan_frame(&Vec::new()), Vec::new());
}

#[test]
fn empty_batches_draw_nothing() {
    let plan = plan_frame(&vec![
        BatchSummary::Shadows(0),
        BatchSummary::Paths(Vec::new()),
        BatchSummary::Paths(vec![PathInfo { order: 1, vertex_count: 0 }]),
        BatchSummary::Surfaces(2),
    ]);
    assert_eq!(
        plan,
        vec![
            RenderCommand::BeginScenePass { clear: true },
            RenderCommand::BeginScenePass { clear: false },
            RenderCommand::BeginScenePass { clear: false },
        ]
    );
}

#[test]
fn sprites_and_shadows_are_instanced() {
    let plan = plan_frame(&vec![
        BatchSummary::Shadows(2),
        BatchSummary::MonochromeSprites(vec![3, 3, 3, 3]),
        BatchSummary::PolychromeSprites(vec![8]),
    ]);
    assert_eq!(
        plan,
        vec![
            RenderCommand::BeginScenePass { clear: true },
            RenderCommand::DrawInstances { pipeline: Pipeline::Shadows, batch: 0, first: 0, instance_count: 2 },
            RenderCommand::DrawInstances { pipeline: Pipeline::MonochromeSprites, batch: 1, first: 0, instance_count: 4 },
            RenderCommand::DrawInstances { pipeline: Pipeline::PolychromeSprites, batch: 2, first: 0, instance_count: 1 },
        ]
    );
}

#[test]
fn intermediate_reallocated_on_resize_only() {
    let mut t = PathIntermediateTracker::new();
    assert!(t.ensure(size(800, 600)));
    assert!(!t.ensure(size(800, 600)));
    assert!(t.ensure(size(1024, 768)));
    assert_eq!(t.size, Some(size(1024, 768)));
}

#[test]
fn sprites_draw_once_per_texture_run() {
    let plan = plan_frame(&vec![BatchSummary::MonochromeSprites(vec![5, 5, 7, 5, 5, 5]), BatchSummary::PolychromeSprites(Vec::new())]);
    assert_eq!(
        plan,
        vec![
            RenderCommand::BeginScenePass { clear: true },
            RenderCommand::DrawInstances { pipeline: Pipeline::MonochromeSprites, batch: 0, first: 0, instance_count: 2 },
            RenderCommand::DrawInstances { pipeline: Pipeline::MonochromeSprites, batch: 0, first: 2, instance_count: 1 },
            RenderCommand::DrawInstances { pipeline: Pipeline::MonochromeSprites, batch: 0, first: 3, instance_count: 3 },
        ]
    );
}
