#version 450
layout(local_size_x = 64, local_size_y = 1, local_size_z = 1) in;

// ── GLSL struct must match GpuVoxelSlot (std430, 24 bytes) ──────────────────
struct VoxelSlot {
    int  cx, cy, cz;
    uint offset;
    uint count;
    uint _pad;
};

// ── Bindings ──────────────────────────────────────────────────────────────────
layout(set = 0, binding = 0) readonly buffer NodeBuf     { vec4        nodes[];          };
layout(set = 0, binding = 1) readonly buffer VoxelTable  { VoxelSlot   voxel_table[];    };
layout(set = 0, binding = 2) readonly buffer VoxelNodes  { uint        voxel_node_idx[]; };
layout(set = 0, binding = 3) readonly buffer FrontierBuf { uvec2       frontier[];       };
layout(set = 0, binding = 4) buffer         RelaxBuf     { uvec4       relaxations[];    };
layout(set = 0, binding = 5) buffer         CounterBuf   { uint relax_count; uint overflow_count; };

// ── Push constants ────────────────────────────────────────────────────────────
layout(push_constant) uniform PC {
    uint  frontier_size;
    uint  mu;
    float jump_range_sq;
    float cell_size;
    float dst_x, dst_y, dst_z;
    uint  dst_node_idx;
    uint  table_mask;
    uint  max_total_relaxations;
};

// ── Helpers ───────────────────────────────────────────────────────────────────
uint hash3(int cx, int cy, int cz) {
    return uint(cx) * 2654435761u
         ^ uint(cy) *  805459861u
         ^ uint(cz) * 3266489917u;
}

// Returns voxel_table slot index, or 0xFFFFFFFF if not found.
// Uses linear probing with a 32-step cap (table is ≥4× loaded so rare).
uint find_voxel(int cx, int cy, int cz) {
    uint probe = hash3(cx, cy, cz) & table_mask;
    for (uint i = 0u; i < 32u; i++) {
        uint s   = (probe + i) & table_mask;
        uint cnt = voxel_table[s].count;
        if (cnt == 0xFFFFFFFFu) return 0xFFFFFFFFu; // empty slot — key absent
        if (voxel_table[s].cx == cx &&
            voxel_table[s].cy == cy &&
            voxel_table[s].cz == cz) return s;
    }
    return 0xFFFFFFFFu;
}

void emit_relaxation(uint from_idx, uint to_idx, uint new_g) {
    uint slot = atomicAdd(relax_count, 1u);
    if (slot < max_total_relaxations) {
        relaxations[slot] = uvec4(from_idx, to_idx, new_g, 0u);
    } else {
        atomicAdd(overflow_count, 1u);
    }
}

// ── Main ──────────────────────────────────────────────────────────────────────
void main() {
    uint tid = gl_GlobalInvocationID.x;
    if (tid >= frontier_size) return;

    uvec2 f      = frontier[tid];
    uint my_idx  = f.x;
    uint my_g    = f.y;
    if (my_g + 1u >= mu) return;   // prune: can't beat upper bound

    vec3 p = nodes[my_idx].xyz;

    // ── Direct reach to terminal node ─────────────────────────────────────
    if (my_idx != dst_node_idx) {
        vec3  d_dst  = p - vec3(dst_x, dst_y, dst_z);
        float d2_dst = dot(d_dst, d_dst);
        if (d2_dst <= jump_range_sq && d2_dst > 0.0) {
            emit_relaxation(my_idx, dst_node_idx, my_g + 1u);
        }
    }

    // ── Expand ±2 voxel cube (125 cells) ─────────────────────────────────
    int cx = int(floor(p.x / cell_size));
    int cy = int(floor(p.y / cell_size));
    int cz = int(floor(p.z / cell_size));

    for (int dx = -2; dx <= 2; dx++) {
    for (int dy = -2; dy <= 2; dy++) {
    for (int dz = -2; dz <= 2; dz++) {
        uint slot = find_voxel(cx + dx, cy + dy, cz + dz);
        if (slot == 0xFFFFFFFFu) continue;

        uint off = voxel_table[slot].offset;
        uint cnt = voxel_table[slot].count;

        for (uint i = off; i < off + cnt; i++) {
            uint  n_idx = voxel_node_idx[i];
            if (n_idx == my_idx) continue;

            vec3  np   = nodes[n_idx].xyz;
            vec3  diff = np - p;
            float d2   = dot(diff, diff);
            if (d2 > jump_range_sq || d2 == 0.0) continue;

            emit_relaxation(my_idx, n_idx, my_g + 1u);
        }
    }}}
}
