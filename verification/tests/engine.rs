use web_audio_api::buffer::add_sat;
use web_audio_api::buffer::AudioBuffer;
use web_audio_api::buffer::AudioRenderQuantum;
use web_audio_api::events::EventEmitter;
use web_audio_api::events::EventEmitterMessage;
use web_audio_api::events::EventHandlerInfos;
use web_audio_api::events::EventHandlerRegistry;
use web_audio_api::events::EventType;
use web_audio_api::graph::Command;
use web_audio_api::graph::Graph;
use web_audio_api::graph::GraphIntegrityError;
use web_audio_api::graph::RenderNodeKind;
use web_audio_api::math::div_trunc_i64;
use web_audio_api::node::buffer_source::AudioBufferSourceRenderer;
use web_audio_api::node::buffer_source::PlaybackState;
use web_audio_api::node::buffer_source::POS_ONE;
use web_audio_api::node::iir_filter::ConstructionError;
use web_audio_api::node::iir_filter::IirFilterNode;
use web_audio_api::node::iir_filter::IirFilterOptions;
use web_audio_api::node::iir_filter::IirFilterRenderer;
use web_audio_api::node::iir_filter::RendererConfig;
use web_audio_api::node::AudioProcessor;
use web_audio_api::timeline::AudioParamTimeline;
use web_audio_api::timeline::AutomationRate;

fn mono_buffer(samples: Vec<i64>) -> AudioBuffer {
    AudioBuffer::from_channels(vec![samples], 48000)
}

#[test]
fn div_trunc_rounds_toward_zero() {
    assert_eq!(div_trunc_i64(7, 2), 3);
    assert_eq!(div_trunc_i64(-7, 2), -3);
    assert_eq!(div_trunc_i64(7, -2), -3);
    assert_eq!(div_trunc_i64(-7, -2), 3);
    assert_eq!(div_trunc_i64(i64::MIN, 1), i64::MIN);
    assert_eq!(div_trunc_i64(0, 5), 0);
}

#[test]
fn add_sat_clamps_at_the_rails() {
    assert_eq!(add_sat(2, 3), 5);
    assert_eq!(add_sat(i64::MAX, 1), i64::MAX);
    assert_eq!(add_sat(i64::MIN, -1), i64::MIN);
    assert_eq!(add_sat(-4, 4), 0);
}

#[test]
fn filter_normalizes_leading_feedback_to_one() {
    let config = RendererConfig { feedforward: vec![4, 2], feedback: vec![2, 1] };
    let renderer = IirFilterRenderer::new(config);
    let coeffs = renderer.norm_coeffs();
    assert_eq!(coeffs.len(), 2);
    assert_eq!(coeffs[0], (2, 1));
    assert_eq!(coeffs[1], (1, 0));
}

#[test]
fn filter_impulse_matches_difference_equation() {
    // y[n] = x[n] + y[n-1]: a unit impulse yields an all-ones response.
    let config = RendererConfig { feedforward: vec![1], feedback: vec![1, -1] };
    let mut renderer = IirFilterRenderer::new(config);
    renderer.ensure_channels(1);
    let mut ys = Vec::new();
    ys.push(renderer.tick(0, 1));
    for _ in 0..4 {
        ys.push(renderer.tick(0, 0));
    }
    assert_eq!(ys, vec![1, 1, 1, 1, 1]);
}

#[test]
fn filter_rejects_all_zero_feedforward() {
    let options = IirFilterOptions { feedforward: vec![0, 0], feedback: vec![1] };
    assert_eq!(IirFilterNode::new(options).err(), Some(ConstructionError::InvalidState));
}

#[test]
fn filter_rejects_empty_and_oversized_lists() {
    let options = IirFilterOptions { feedforward: vec![], feedback: vec![1] };
    assert_eq!(IirFilterNode::new(options).err(), Some(ConstructionError::NotSupported));
    let options = IirFilterOptions { feedforward: vec![1; 21], feedback: vec![1] };
    assert_eq!(IirFilterNode::new(options).err(), Some(ConstructionError::NotSupported));
    let options = IirFilterOptions { feedforward: vec![1], feedback: vec![] };
    assert_eq!(IirFilterNode::new(options).err(), Some(ConstructionError::NotSupported));
}

#[test]
fn filter_rejects_zero_leading_feedback() {
    let options = IirFilterOptions { feedforward: vec![1], feedback: vec![0, 1] };
    assert_eq!(IirFilterNode::new(options).err(), Some(ConstructionError::InvalidState));
    let options = IirFilterOptions { feedforward: vec![1], feedback: vec![0, 0] };
    assert_eq!(IirFilterNode::new(options).err(), Some(ConstructionError::InvalidState));
}

#[test]
fn filter_rejects_unrepresentable_coefficients() {
    let options = IirFilterOptions { feedforward: vec![i64::MIN], feedback: vec![1] };
    assert_eq!(IirFilterNode::new(options).err(), Some(ConstructionError::NotSupported));
}

#[test]
fn filter_accepts_valid_coefficients() {
    let options = IirFilterOptions { feedforward: vec![3, 1], feedback: vec![2] };
    let node = IirFilterNode::new(options).unwrap();
    assert_eq!(node.feedforward().clone(), vec![3, 1]);
    assert_eq!(node.feedback().clone(), vec![2]);
    assert_eq!(node.number_of_inputs(), 1);
    assert_eq!(node.number_of_outputs(), 1);
}

#[test]
fn filter_processes_a_block_as_a_gain() {
    let config = RendererConfig { feedforward: vec![2], feedback: vec![1] };
    let mut renderer = IirFilterRenderer::new(config);
    let inputs = vec![AudioRenderQuantum::from_channels(vec![vec![1, 2, 3]])];
    let mut outputs = vec![AudioRenderQuantum::silence(1, 3)];
    renderer.process(&inputs, &mut outputs, 0, 48000);
    assert_eq!(outputs[0].channel_data(0).clone(), vec![2, 4, 6]);
    assert!(!renderer.tail_time());
}

#[test]
fn filter_emits_silence_on_overflowing_channel() {
    let config = RendererConfig { feedforward: vec![i64::MAX], feedback: vec![1] };
    let mut renderer = IirFilterRenderer::new(config);
    let inputs = vec![AudioRenderQuantum::from_channels(vec![vec![3, 3]])];
    let mut outputs = vec![AudioRenderQuantum::from_channels(vec![vec![9, 9]])];
    renderer.process(&inputs, &mut outputs, 0, 48000);
    assert_eq!(outputs[0].channel_data(0).clone(), vec![0, 0]);
}

#[test]
fn timeline_returns_default_before_first_event() {
    let mut tl = AudioParamTimeline::new(5);
    assert_eq!(tl.value_at(0), 5);
    assert_eq!(tl.value_at(100), 5);
    tl.set_value_at_time(7, 10);
    assert_eq!(tl.value_at(3), 5);
    assert_eq!(tl.value_at(9), 5);
}

#[test]
fn timeline_set_value_is_exact_at_and_after_its_time() {
    let mut tl = AudioParamTimeline::new(5);
    tl.set_value_at_time(7, 10);
    assert_eq!(tl.value_at(10), 7);
    assert_eq!(tl.value_at(11), 7);
    assert_eq!(tl.value_at(4000), 7);
}

#[test]
fn timeline_linear_ramp_interpolates() {
    let mut tl = AudioParamTimeline::new(0);
    tl.linear_ramp_to_value_at_time(100, 10);
    assert_eq!(tl.value_at(0), 0);
    assert_eq!(tl.value_at(1), 10);
    assert_eq!(tl.value_at(5), 50);
    assert_eq!(tl.value_at(10), 100);
    assert_eq!(tl.value_at(20), 100);
}

#[test]
fn timeline_linear_ramp_truncates_toward_zero() {
    let mut tl = AudioParamTimeline::new(0);
    tl.linear_ramp_to_value_at_time(5, 3);
    assert_eq!(tl.value_at(1), 1);
    assert_eq!(tl.value_at(2), 3);
}

#[test]
fn timeline_cancel_drops_scheduled_tail() {
    let mut tl = AudioParamTimeline::new(1);
    tl.set_value_at_time(7, 10);
    tl.set_value_at_time(9, 20);
    tl.cancel_scheduled_values(15);
    assert_eq!(tl.value_at(30), 7);
}

#[test]
fn timeline_insert_at_earlier_time_truncates() {
    let mut tl = AudioParamTimeline::new(1);
    tl.set_value_at_time(7, 10);
    tl.set_value_at_time(3, 5);
    assert_eq!(tl.value_at(10), 3);
    assert_eq!(tl.value_at(4), 1);
}

#[test]
fn source_loop_region_confines_forward_playback() {
    let mut s = AudioBufferSourceRenderer::new(mono_buffer(vec![10, 20, 30, 40]));
    s.set_loop(true, POS_ONE, 2 * POS_ONE);
    s.start(0, 0, u64::MAX);
    let block = s.process_quantum(0, 6);
    assert_eq!(block.channel_data(0).clone(), vec![10, 20, 20, 20, 20, 20]);
    assert!(POS_ONE <= s.position && s.position < 2 * POS_ONE);
}

#[test]
fn source_loop_region_confines_backward_playback() {
    let mut s = AudioBufferSourceRenderer::new(mono_buffer(vec![10, 20, 30, 40]));
    s.set_loop(true, POS_ONE, 2 * POS_ONE);
    s.set_playback_rate(-POS_ONE);
    s.start(0, 3 * POS_ONE / 2, u64::MAX);
    let block = s.process_quantum(0, 4);
    assert_eq!(block.channel_data(0).clone(), vec![30, 30, 30, 30]);
    assert!(POS_ONE <= s.position && s.position < 2 * POS_ONE);
}

#[test]
fn source_invalid_loop_bounds_fall_back_to_full_buffer() {
    let mut s = AudioBufferSourceRenderer::new(mono_buffer(vec![10, 20]));
    s.set_loop(true, 5 * POS_ONE, 3 * POS_ONE);
    assert!(s.loop_enabled);
    assert_eq!(s.loop_start, 0);
    assert_eq!(s.loop_end, 2 * POS_ONE);
}

#[test]
fn source_offset_and_duration_bound_the_output_window() {
    let data: Vec<i64> = (1..=30).collect();
    let mut s = AudioBufferSourceRenderer::new(mono_buffer(data));
    s.start(0, 10 * POS_ONE, 10);
    let block = s.process_quantum(0, 15);
    let out = block.channel_data(0).clone();
    for n in 0..10 {
        assert_eq!(out[n], (11 + n) as i64);
    }
    for n in 10..15 {
        assert_eq!(out[n], 0);
    }
    assert_eq!(s.state, PlaybackState::Ended);
    assert_eq!(s.staged_event, Some(EventType::Ended));
}

#[test]
fn source_stages_exactly_one_ended_event() {
    let mut s = AudioBufferSourceRenderer::new(mono_buffer(vec![1, 2]));
    s.start(0, 0, 1);
    let _ = s.process_quantum(0, 4);
    assert_eq!(s.get_stagging_event(), Some(EventType::Ended));
    assert_eq!(s.get_stagging_event(), None);
    let _ = s.process_quantum(4, 4);
    assert_eq!(s.get_stagging_event(), None);
}

#[test]
fn source_negative_rate_reverses_reads_frame_for_frame() {
    let mut fwd = AudioBufferSourceRenderer::new(mono_buffer(vec![1, 2, 3, 4, 5]));
    fwd.start(0, 0, u64::MAX);
    let fwd_block = fwd.process_quantum(0, 5);
    let fwd_out = fwd_block.channel_data(0).clone();
    assert_eq!(fwd_out, vec![1, 2, 3, 4, 5]);

    let mut rev = AudioBufferSourceRenderer::new(mono_buffer(vec![1, 2, 3, 4, 5]));
    rev.set_playback_rate(-POS_ONE);
    rev.start(0, 4 * POS_ONE, u64::MAX);
    let rev_block = rev.process_quantum(0, 5);
    let rev_out = rev_block.channel_data(0).clone();
    assert_eq!(rev_out, vec![5, 4, 3, 2, 1]);

    for n in 0..5 {
        assert_eq!(fwd_out[n], rev_out[4 - n]);
    }
}

#[test]
fn source_ends_after_running_off_a_non_looping_buffer() {
    let mut s = AudioBufferSourceRenderer::new(mono_buffer(vec![1, 2]));
    s.start(0, 0, u64::MAX);
    let block = s.process_quantum(0, 4);
    assert_eq!(block.channel_data(0).clone(), vec![1, 2, 0, 0]);
    assert_eq!(s.state, PlaybackState::Ended);
}

#[test]
fn registry_dispatches_matching_handlers_in_order() {
    let mut reg = EventHandlerRegistry::new();
    reg.register_event_handler(EventHandlerInfos {
        node_id: 1,
        event_type: EventType::Ended,
        callback: 11,
    });
    reg.register_event_handler(EventHandlerInfos {
        node_id: 2,
        event_type: EventType::Ended,
        callback: 22,
    });
    reg.register_event_handler(EventHandlerInfos {
        node_id: 1,
        event_type: EventType::Ended,
        callback: 33,
    });
    let tokens = reg.dispatch(EventEmitterMessage { node_id: 1, event_type: EventType::Ended });
    assert_eq!(tokens, vec![11, 33]);
}

#[test]
fn graph_rejects_edges_to_missing_nodes() {
    let mut g = Graph::new();
    let dest = g.add_node(RenderNodeKind::Destination);
    assert_eq!(g.connect(dest, 7, 0, 0).err(), Some(GraphIntegrityError::MissingNode));
    assert_eq!(g.connect(7, dest, 0, 0).err(), Some(GraphIntegrityError::MissingNode));
    assert_eq!(g.edge_count(), 0);
}

#[test]
fn graph_rejects_ports_past_arity() {
    let mut g = Graph::new();
    let dest = g.add_node(RenderNodeKind::Destination);
    let s = AudioBufferSourceRenderer::new(mono_buffer(vec![1]));
    let src = g.add_node(RenderNodeKind::Source(s));
    assert_eq!(g.connect(src, dest, 1, 0).err(), Some(GraphIntegrityError::InvalidPort));
    assert_eq!(g.connect(dest, src, 0, 0).err(), Some(GraphIntegrityError::InvalidPort));
    assert!(g.connect(src, dest, 0, 0).is_ok());
    assert_eq!(g.edge_count(), 1);
}

#[test]
fn graph_rejects_commands_in_the_wrong_state() {
    let mut g = Graph::new();
    let dest = g.add_node(RenderNodeKind::Destination);
    let s = AudioBufferSourceRenderer::new(mono_buffer(vec![1]));
    let src = g.add_node(RenderNodeKind::Source(s));
    assert_eq!(
        g.apply_command(Command::Stop { node: src, when: 5 }).err(),
        Some(GraphIntegrityError::WrongNodeState)
    );
    assert_eq!(
        g.apply_command(Command::Start { node: dest, when: 0, offset: 0, duration: u64::MAX })
            .err(),
        Some(GraphIntegrityError::WrongNodeState)
    );
    assert_eq!(
        g.apply_command(Command::Start { node: 9, when: 0, offset: 0, duration: u64::MAX }).err(),
        Some(GraphIntegrityError::MissingNode)
    );
}

#[test]
fn graph_prunes_finished_disconnected_source_within_one_quantum() {
    let mut g = Graph::new();
    let dest = g.add_node(RenderNodeKind::Destination);
    let s = AudioBufferSourceRenderer::new(mono_buffer(vec![1, 1]));
    let src = g.add_node(RenderNodeKind::Source(s));
    g.connect(src, dest, 0, 0).unwrap();
    g.apply_command(Command::Start { node: src, when: 0, offset: 0, duration: u64::MAX })
        .unwrap();

    let (_mix, events) = g.process_quantum(0, 8, 1);
    assert_eq!(events.len(), 1);
    assert_eq!(events[0].node_id, src as u64);
    assert_eq!(events[0].event_type, EventType::Ended);
    // still connected downstream: kept alive
    assert!(g.node_is_live(src));

    g.disconnect(src, dest);
    let (_mix, events) = g.process_quantum(8, 8, 1);
    assert!(events.is_empty());
    assert!(!g.node_is_live(src));
    assert!(g.node_is_live(dest));

    // the freed id is reused by the next registration
    let reused = g.add_node(RenderNodeKind::Destination);
    assert_eq!(reused, src);
}

#[test]
fn end_to_end_stopped_source_goes_silent_and_ends_once() {
    // A source started at frame 0 with a stop at frame 100, rate one, no
    // loop, over a 200-frame buffer: output is nonzero before the stop, zero
    // after, and exactly one lifecycle event crosses the quantum boundary.
    let data: Vec<i64> = vec![7; 200];
    let mut s = AudioBufferSourceRenderer::new(mono_buffer(data.clone()));
    s.start(0, 0, u64::MAX);
    s.stop(100);
    let block = s.process_quantum(0, 128);
    let out = block.channel_data(0).clone();
    for n in 0..100 {
        assert_eq!(out[n], 7);
    }
    for n in 100..128 {
        assert_eq!(out[n], 0);
    }
    assert_eq!(s.state, PlaybackState::Ended);

    let mut g = Graph::new();
    let dest = g.add_node(RenderNodeKind::Destination);
    let s2 = AudioBufferSourceRenderer::new(mono_buffer(data));
    let src = g.add_node(RenderNodeKind::Source(s2));
    g.connect(src, dest, 0, 0).unwrap();
    g.apply_command(Command::Start { node: src, when: 0, offset: 0, duration: u64::MAX })
        .unwrap();
    g.apply_command(Command::Stop { node: src, when: 100 }).unwrap();
    let (mix, events) = g.process_quantum(0, 128, 1);
    assert_eq!(events.len(), 1);
    assert_eq!(events[0], EventEmitterMessage { node_id: src as u64, event_type: EventType::Ended });
    let mixed = mix.channel_data(0).clone();
    for n in 0..100 {
        assert_eq!(mixed[n], 7);
    }
    for n in 100..128 {
        assert_eq!(mixed[n], 0);
    }
    let (mix, events) = g.process_quantum(128, 128, 1);
    assert!(events.is_empty());
    assert_eq!(mix.channel_data(0).clone(), vec![0; 128]);
}

#[test]
fn source_loop_reads_nearest_existing_frame() {
    // At rate one half, a position within half a frame below the loop end
    // must read the region's last frame, then wrap, never emitting silence
    // inside the loop region.
    let mut s = AudioBufferSourceRenderer::new(mono_buffer(vec![1, 2, 3, 4]));
    s.set_loop(true, 0, 4 * POS_ONE);
    s.set_playback_rate(POS_ONE / 2);
    s.start(0, 3 * POS_ONE, u64::MAX);
    let block = s.process_quantum(0, 4);
    assert_eq!(block.channel_data(0).clone(), vec![4, 4, 1, 2]);
}

#[test]
fn graph_commands_cross_the_boundary_for_edges_and_drop() {
    let mut g = Graph::new();
    let dest = g.add_node(RenderNodeKind::Destination);
    let s = AudioBufferSourceRenderer::new(mono_buffer(vec![1]));
    let src = g.add_node(RenderNodeKind::Source(s));
    g.apply_command(Command::Connect { from: src, to: dest, output_index: 0, input_index: 0 })
        .unwrap();
    assert_eq!(g.edge_count(), 1);
    assert_eq!(
        g.apply_command(Command::Connect { from: src, to: 9, output_index: 0, input_index: 0 })
            .err(),
        Some(GraphIntegrityError::MissingNode)
    );
    g.apply_command(Command::Disconnect { from: src, to: dest }).unwrap();
    assert_eq!(g.edge_count(), 0);
    g.apply_command(Command::Connect { from: src, to: dest, output_index: 0, input_index: 0 })
        .unwrap();
    g.apply_command(Command::Drop { node: src }).unwrap();
    assert!(!g.node_is_live(src));
    assert_eq!(g.edge_count(), 0);
    assert_eq!(
        g.apply_command(Command::Drop { node: src }).err(),
        Some(GraphIntegrityError::MissingNode)
    );
    // the dropped id is recycled
    let reused = g.add_node(RenderNodeKind::Destination);
    assert_eq!(reused, src);
}

#[test]
fn render_quantum_sums_blocks_with_saturation() {
    let mut a = AudioRenderQuantum::from_channels(vec![vec![1, i64::MAX]]);
    let b = AudioRenderQuantum::from_channels(vec![vec![2, 1]]);
    a.add_block(&b);
    assert_eq!(a.channel_data(0).clone(), vec![3, i64::MAX]);
}

#[test]
fn filter_states_are_kept_per_channel() {
    // y[n] = x[n] + y[n-1] on two channels with different inputs: the
    // accumulators must not bleed across channels.
    let config = RendererConfig { feedforward: vec![1], feedback: vec![1, -1] };
    let mut renderer = IirFilterRenderer::new(config);
    let inputs = vec![AudioRenderQuantum::from_channels(vec![vec![1, 0, 0], vec![0, 2, 0]])];
    let mut outputs = vec![AudioRenderQuantum::silence(2, 3)];
    renderer.process(&inputs, &mut outputs, 0, 48000);
    assert_eq!(outputs[0].channel_data(0).clone(), vec![1, 1, 1]);
    assert_eq!(outputs[0].channel_data(1).clone(), vec![0, 2, 2]);
}

#[test]
fn render_quantum_upmixes_by_repetition() {
    let q = AudioRenderQuantum::from_channels(vec![vec![1, 2], vec![3, 4]]);
    let up = q.mix_to_channel_count(5, 2);
    assert_eq!(up.channel_count(), 5);
    assert_eq!(up.channel_data(0).clone(), vec![1, 2]);
    assert_eq!(up.channel_data(1).clone(), vec![3, 4]);
    assert_eq!(up.channel_data(2).clone(), vec![1, 2]);
    assert_eq!(up.channel_data(3).clone(), vec![3, 4]);
    assert_eq!(up.channel_data(4).clone(), vec![1, 2]);
}

#[test]
fn render_quantum_downmixes_to_mono_by_averaging() {
    let q = AudioRenderQuantum::from_channels(vec![vec![1, -3], vec![2, -4], vec![4, -4]]);
    let mono = q.mix_to_channel_count(1, 2);
    assert_eq!(mono.channel_count(), 1);
    // (1+2+4)/3 = 2; (-3-4-4)/3 = -11/3 truncated toward zero = -3
    assert_eq!(mono.channel_data(0).clone(), vec![2, -3]);
}

#[test]
fn source_renders_through_the_processing_contract() {
    let mut s = AudioBufferSourceRenderer::new(mono_buffer(vec![1, 2, 3]));
    s.start(0, 0, u64::MAX);
    let inputs: Vec<AudioRenderQuantum> = Vec::new();
    let mut outputs = vec![AudioRenderQuantum::silence(1, 3)];
    s.process(&inputs, &mut outputs, 0, 48000);
    assert_eq!(outputs[0].channel_data(0).clone(), vec![1, 2, 3]);
    assert!(s.tail_time());
}

#[test]
fn timeline_rates_resolve_per_frame_or_per_quantum() {
    let mut a = AudioParamTimeline::new(0);
    a.linear_ramp_to_value_at_time(100, 10);
    assert_eq!(a.values_for_quantum(0, 4), vec![0, 10, 20, 30]);

    let mut k = AudioParamTimeline::new_with_rate(0, AutomationRate::KRate);
    k.linear_ramp_to_value_at_time(100, 10);
    assert_eq!(k.values_for_quantum(2, 4), vec![20, 20, 20, 20]);
}
