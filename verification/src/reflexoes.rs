//! The reflection subsystem: personal reflections gated by the reading
//! record, public listings, likes and comments.

use crate::digesto::{calcular_sha256, digesto_sha256};
use crate::tabela::{definir, indice_da_chave, indice_de, lema_indice_da_chave, retirar,
    tem_chave};
use crate::types::lema_chaves_fieis;
use crate::types::{Comentario, Endereco, Erro, IdTexto, Reflexao, StatusReflexao,
    VistaComentario, VistaReflexao, MAX_COMENTARIO_CHARS, MAX_REFLEXAO_CHARS};
use crate::ContratoBiblia;
use vstd::prelude::*;
use vstd::string::StrSliceExecFns;

verus! {

/// The two states agree everywhere but possibly the reflections, their
/// status, the public index and its counters.
pub open spec fn so_difere_reflexoes(a: ContratoBiblia, b: ContratoBiblia) -> bool {
    &&& a.admin == b.admin
    &&& a.hashes == b.hashes
    &&& a.leituras == b.leituras
    &&& a.progresso == b.progresso
    &&& a.metas_livros == b.metas_livros
    &&& a.curtidas == b.curtidas
    &&& a.comentarios == b.comentarios
}

/// The two states agree everywhere but possibly the like records and the
/// reflections (whose counters the likes drive).
pub open spec fn so_difere_curtidas(a: ContratoBiblia, b: ContratoBiblia) -> bool {
    &&& a.admin == b.admin
    &&& a.hashes == b.hashes
    &&& a.leituras == b.leituras
    &&& a.progresso == b.progresso
    &&& a.metas_livros == b.metas_livros
    &&& a.contadores == b.contadores
    &&& a.indice_publico == b.indice_publico
    &&& a.comentarios == b.comentarios
    &&& a.status == b.status
}

/// The two states agree everywhere but possibly the comment logs.
pub open spec fn so_difere_comentarios(a: ContratoBiblia, b: ContratoBiblia) -> bool {
    &&& a.admin == b.admin
    &&& a.hashes == b.hashes
    &&& a.leituras == b.leituras
    &&& a.progresso == b.progresso
    &&& a.metas_livros == b.metas_livros
    &&& a.reflexoes == b.reflexoes
    &&& a.contadores == b.contadores
    &&& a.indice_publico == b.indice_publico
    &&& a.curtidas == b.curtidas
    &&& a.status == b.status
}

/// Why `adicionar_reflexao` refuses, if it does: the checks run in this
/// order and the first failing one names the error.
pub open spec fn erro_adicionar(
    s: ContratoBiblia,
    leitor: Endereco,
    t: IdTexto,
    conteudo: Seq<char>,
) -> Option<Erro> {
    if conteudo.len() > MAX_REFLEXAO_CHARS {
        Some(Erro::ConteudoMuitoLongo)
    } else if conteudo.len() == 0 {
        Some(Erro::ConteudoVazio)
    } else if !s.hash_registrado(t) {
        Some(Erro::TextoNaoRegistrado)
    } else if !s.leitura_marcada(leitor, t) {
        Some(Erro::LeituraNaoConfirmada)
    } else if s.tem_reflexao(t, leitor) {
        Some(Erro::ReflexaoDuplicada)
    } else {
        None
    }
}

/// The reflection a successful `adicionar_reflexao` stores: the given
/// content, the SHA-256 digest of its bytes, no likes yet.
pub open spec fn reflexao_nova(
    leitor: Endereco,
    t: IdTexto,
    conteudo: Seq<char>,
    publica: bool,
    agora: u64,
) -> VistaReflexao {
    VistaReflexao {
        leitor,
        id_texto: t,
        conteudo,
        timestamp: agora,
        hash_reflexao: digesto_sha256(vstd::utf8::encode_utf8(conteudo)),
        publica,
        curtidas: 0,
    }
}

/// After a successful `adicionar_reflexao`: the new reflection is stored and
/// active, every other reflection and status is untouched, and, when public,
/// the author is appended to the text's public index under the old counter
/// value. Nothing else moves.
pub open spec fn pos_adicionar(
    s0: ContratoBiblia,
    s1: ContratoBiblia,
    leitor: Endereco,
    t: IdTexto,
    conteudo: Seq<char>,
    publica: bool,
    agora: u64,
) -> bool {
    &&& s1.tem_reflexao(t, leitor)
    &&& s1.reflexao_de(t, leitor) == reflexao_nova(leitor, t, conteudo, publica, agora)
    &&& s1.status_de(t, leitor) == StatusReflexao::Ativa
    &&& forall|t2: IdTexto, a2: Endereco|
        (t2, a2) != (t, leitor) ==> #[trigger] s1.tem_reflexao(t2, a2) == s0.tem_reflexao(t2, a2)
    &&& forall|t2: IdTexto, a2: Endereco|
        (t2, a2) != (t, leitor) && s0.tem_reflexao(t2, a2) ==> #[trigger] s1.reflexao_de(t2, a2)
            == s0.reflexao_de(t2, a2)
    &&& forall|t2: IdTexto, a2: Endereco|
        (t2, a2) != (t, leitor) ==> #[trigger] s1.status_de(t2, a2) == s0.status_de(t2, a2)
    &&& if publica {
        &&& s1.contador_publico(t) == s0.contador_publico(t) + 1
        &&& forall|t2: IdTexto|
            t2 != t ==> #[trigger] s1.contador_publico(t2) == s0.contador_publico(t2)
        &&& s1.publicado(t, s0.contador_publico(t))
        &&& s1.autor_publicado(t, s0.contador_publico(t)) == leitor
        &&& forall|t2: IdTexto, i: u32|
            (t2, i) != (t, s0.contador_publico(t)) ==> #[trigger] s1.publicado(t2, i)
                == s0.publicado(t2, i)
        &&& forall|t2: IdTexto, i: u32|
            (t2, i) != (t, s0.contador_publico(t)) && s0.publicado(t2, i)
                ==> #[trigger] s1.autor_publicado(t2, i) == s0.autor_publicado(t2, i)
    } else {
        &&& s1.contadores == s0.contadores
        &&& s1.indice_publico == s0.indice_publico
    }
    &&& so_difere_reflexoes(s0, s1)
}

/// Creates the one reflection this principal may have about this text.
/// Refused, leaving the state untouched, unless the content length is in
/// range, the text is registered, the reader has marked it read and no
/// reflection by the pair exists yet.
pub fn adicionar_reflexao(
    s: &mut ContratoBiblia,
    leitor: Endereco,
    id_texto: IdTexto,
    conteudo: String,
    publica: bool,
    agora: u64,
) -> (r: Result<(), Erro>)
    requires
        old(s).bem_formado(),
        publica && erro_adicionar(*old(s), leitor, id_texto, conteudo@) is None ==> old(
            s,
        ).contador_publico(id_texto) < u32::MAX,
    ensures
        final(s).bem_formado(),
        match r {
            Ok(()) => {
                &&& erro_adicionar(*old(s), leitor, id_texto, conteudo@) is None
                &&& pos_adicionar(
                    *old(s),
                    *final(s),
                    leitor,
                    id_texto,
                    conteudo@,
                    publica,
                    agora,
                )
            },
            Err(e) => {
                &&& erro_adicionar(*old(s), leitor, id_texto, conteudo@) == Some(e)
                &&& *final(s) == *old(s)
            },
        },
{
    proof {
        lema_chaves_fieis();
    }
    let tamanho = conteudo.as_str().unicode_len();
    if tamanho > MAX_REFLEXAO_CHARS as usize {
        return Err(Erro::ConteudoMuitoLongo);
    }
    if tamanho == 0 {
        return Err(Erro::ConteudoVazio);
    }
    match indice_de(&s.hashes, &id_texto) {
        Some(_) => {
            proof {
                assert(tem_chave(s.hashes@, id_texto));
            }
        },
        None => {
            return Err(Erro::TextoNaoRegistrado);
        },
    }
    let chave_leitura = (leitor, id_texto);
    match indice_de(&s.leituras, &chave_leitura) {
        Some(_) => {
            proof {
                assert(tem_chave(s.leituras@, chave_leitura));
            }
        },
        None => {
            return Err(Erro::LeituraNaoConfirmada);
        },
    }
    let chave = (id_texto, leitor);
    match indice_de(&s.reflexoes, &chave) {
        Some(_) => {
            proof {
                assert(tem_chave(s.reflexoes@, chave));
            }
            return Err(Erro::ReflexaoDuplicada);
        },
        None => {},
    }
    let hash_conteudo = calcular_sha256(conteudo.as_str().as_bytes());
    let reflexao = Reflexao {
        leitor,
        id_texto,
        conteudo,
        timestamp: agora,
        hash_reflexao: hash_conteudo,
        publica,
        curtidas: 0,
    };
    proof {
        assert(reflexao@ =~= reflexao_nova(leitor, id_texto, conteudo@, publica, agora));
    }
    definir(&mut s.reflexoes, chave, reflexao);
    definir(&mut s.status, chave, StatusReflexao::Ativa);
    if publica {
        let contador: u32 = match indice_de(&s.contadores, &id_texto) {
            Some(i) => {
                proof {
                    lema_indice_da_chave(s.contadores@, id_texto, i as int);
                }
                s.contadores[i].1
            },
            None => 0,
        };
        definir(&mut s.indice_publico, (id_texto, contador), leitor);
        definir(&mut s.contadores, id_texto, contador + 1);
    }
    Ok(())
}

/// What `obter_reflexao` answers: nothing when the reflection was removed
/// by moderation or never written, the stored reflection otherwise.
pub open spec fn obter_espec(s: ContratoBiblia, leitor: Endereco, t: IdTexto) -> Option<
    VistaReflexao,
> {
    if s.status_de(t, leitor) == StatusReflexao::Removida {
        None
    } else if s.tem_reflexao(t, leitor) {
        Some(s.reflexao_de(t, leitor))
    } else {
        None
    }
}

/// Fetches this principal's reflection about this text, unless it was
/// removed by moderation.
pub fn obter_reflexao(s: &ContratoBiblia, leitor: Endereco, id_texto: IdTexto) -> (r: Option<
    Reflexao,
>)
    requires
        s.bem_formado(),
    ensures
        match r {
            Some(rf) => obter_espec(*s, leitor, id_texto) == Some(rf@),
            None => obter_espec(*s, leitor, id_texto) is None,
        },
{
    proof {
        lema_chaves_fieis();
    }
    let chave = (id_texto, leitor);
    let estado = match indice_de(&s.status, &chave) {
        Some(i) => {
            proof {
                lema_indice_da_chave(s.status@, chave, i as int);
            }
            s.status[i].1
        },
        None => StatusReflexao::Ativa,
    };
    if let StatusReflexao::Removida = estado {
        return None;
    }
    match indice_de(&s.reflexoes, &chave) {
        Some(i) => {
            proof {
                lema_indice_da_chave(s.reflexoes@, chave, i as int);
            }
            Some(s.reflexoes[i].1.duplicar())
        },
        None => None,
    }
}

/// Reads the moderation status of this author's reflection; a status never
/// written counts as active.
pub fn verificar_status_reflexao(s: &ContratoBiblia, id_texto: IdTexto, autor_reflexao:
    Endereco) -> (r: StatusReflexao)
    requires
        s.bem_formado(),
    ensures
        r == s.status_de(id_texto, autor_reflexao),
{
    proof {
        lema_chaves_fieis();
    }
    let chave = (id_texto, autor_reflexao);
    match indice_de(&s.status, &chave) {
        Some(i) => {
            proof {
                lema_indice_da_chave(s.status@, chave, i as int);
            }
            s.status[i].1
        },
        None => StatusReflexao::Ativa,
    }
}

/// Why `curtir_reflexao` refuses, if it does.
pub open spec fn erro_curtir(s: ContratoBiblia, t: IdTexto, autor: Endereco) -> Option<Erro> {
    if !s.tem_reflexao(t, autor) {
        Some(Erro::ReflexaoNaoEncontrada)
    } else if s.status_de(t, autor) == StatusReflexao::Removida {
        Some(Erro::ReflexaoRemovida)
    } else if !s.reflexao_de(t, autor).publica {
        Some(Erro::ReflexaoNaoPublica)
    } else {
        None
    }
}

/// After a successful `curtir_reflexao`: the liker's record is flipped, the
/// reflection's counter moves one step the matching way (down saturates at
/// zero), and everything else keeps its value.
pub open spec fn pos_curtir(
    s0: ContratoBiblia,
    s1: ContratoBiblia,
    curtidor: Endereco,
    t: IdTexto,
    autor: Endereco,
) -> bool {
    let antes = s0.reflexao_de(t, autor);
    let depois = s1.reflexao_de(t, autor);
    &&& s1.curtiu(t, autor, curtidor) == !s0.curtiu(t, autor, curtidor)
    &&& forall|t2: IdTexto, a2: Endereco, c2: Endereco|
        (t2, a2, c2) != (t, autor, curtidor) ==> #[trigger] s1.curtiu(t2, a2, c2) == s0.curtiu(
            t2,
            a2,
            c2,
        )
    &&& s1.tem_reflexao(t, autor)
    &&& depois == (VistaReflexao { curtidas: depois.curtidas, ..antes })
    &&& (s0.curtiu(t, autor, curtidor) ==> depois.curtidas == if antes.curtidas > 0 {
        antes.curtidas - 1
    } else {
        0
    })
    &&& (!s0.curtiu(t, autor, curtidor) ==> depois.curtidas == antes.curtidas + 1)
    &&& forall|t2: IdTexto, a2: Endereco|
        (t2, a2) != (t, autor) ==> #[trigger] s1.tem_reflexao(t2, a2) == s0.tem_reflexao(t2, a2)
    &&& forall|t2: IdTexto, a2: Endereco|
        (t2, a2) != (t, autor) && s0.tem_reflexao(t2, a2) ==> #[trigger] s1.reflexao_de(t2, a2)
            == s0.reflexao_de(t2, a2)
    &&& if s0.curtiu(t, autor, curtidor) {
        s1.curtidas@ == s0.curtidas@.remove(
            indice_da_chave(s0.curtidas@, (t, autor, curtidor)),
        )
    } else {
        s1.curtidas@ == s0.curtidas@.push(((t, autor, curtidor), ()))
    }
    &&& so_difere_curtidas(s0, s1)
}

/// Toggles this liker's like on this author's public reflection: a first
/// call records it and raises the counter by one, the next removes it and
/// lowers the counter by one, never below zero.
pub fn curtir_reflexao(
    s: &mut ContratoBiblia,
    curtidor: Endereco,
    id_texto: IdTexto,
    autor_reflexao: Endereco,
) -> (r: Result<(), Erro>)
    requires
        old(s).bem_formado(),
        erro_curtir(*old(s), id_texto, autor_reflexao) is None && !old(s).curtiu(
            id_texto,
            autor_reflexao,
            curtidor,
        ) ==> old(s).reflexao_de(id_texto, autor_reflexao).curtidas < u32::MAX,
    ensures
        final(s).bem_formado(),
        match r {
            Ok(()) => {
                &&& erro_curtir(*old(s), id_texto, autor_reflexao) is None
                &&& pos_curtir(*old(s), *final(s), curtidor, id_texto, autor_reflexao)
            },
            Err(e) => {
                &&& erro_curtir(*old(s), id_texto, autor_reflexao) == Some(e)
                &&& *final(s) == *old(s)
            },
        },
{
    proof {
        lema_chaves_fieis();
    }
    let chave = (id_texto, autor_reflexao);
    let i_reflexao = match indice_de(&s.reflexoes, &chave) {
        Some(i) => i,
        None => {
            return Err(Erro::ReflexaoNaoEncontrada);
        },
    };
    proof {
        lema_indice_da_chave(s.reflexoes@, chave, i_reflexao as int);
    }
    let estado = match indice_de(&s.status, &chave) {
        Some(j) => {
            proof {
                lema_indice_da_chave(s.status@, chave, j as int);
            }
            s.status[j].1
        },
        None => StatusReflexao::Ativa,
    };
    if let StatusReflexao::Removida = estado {
        return Err(Erro::ReflexaoRemovida);
    }
    if !s.reflexoes[i_reflexao].1.publica {
        return Err(Erro::ReflexaoNaoPublica);
    }
    let mut nova = s.reflexoes[i_reflexao].1.duplicar();
    let chave_curtida = (id_texto, autor_reflexao, curtidor);
    match indice_de(&s.curtidas, &chave_curtida) {
        Some(_) => {
            proof {
                assert(tem_chave(s.curtidas@, chave_curtida));
            }
            retirar(&mut s.curtidas, &chave_curtida);
            nova.curtidas = if nova.curtidas > 0 {
                nova.curtidas - 1
            } else {
                0
            };
        },
        None => {
            definir(&mut s.curtidas, chave_curtida, ());
            nova.curtidas = nova.curtidas + 1;
        },
    }
    let ghost antes = old(s).reflexao_de(id_texto, autor_reflexao);
    proof {
        assert(nova@ =~= (VistaReflexao { curtidas: nova@.curtidas, ..antes }));
    }
    definir(&mut s.reflexoes, chave, nova);
    Ok(())
}

/// Copies a comment sequence, comment for comment.
fn duplicar_comentarios(v: &Vec<Comentario>) -> (r: Vec<Comentario>)
    ensures
        r.deep_view() == v.deep_view(),
{
    let mut copia: Vec<Comentario> = Vec::new();
    let mut i: usize = 0;
    while i < v.len()
        invariant
            i <= v@.len(),
            copia.deep_view() == v.deep_view().subrange(0, i as int),
        decreases v@.len() - i,
    {
        let ghost antes_v = copia@;
        let ghost antes = copia.deep_view();
        proof {
            assert(antes.len() == i);
            assert(antes_v.len() == i);
        }
        let duplicado = v[i].duplicar();
        copia.push(duplicado);
        proof {
            assert(copia@ == antes_v.push(duplicado));
            assert(copia@.len() == i + 1);
            assert forall|j: int| 0 <= j < i + 1 implies copia.deep_view()[j] == v.deep_view()[j]
                by {
                if j < i {
                    assert(copia@[j] == antes_v[j]);
                    assert(copia.deep_view()[j] == antes_v[j].deep_view());
                    assert(antes[j] == antes_v[j].deep_view());
                    assert(antes[j] == v.deep_view().subrange(0, i as int)[j]);
                } else {
                    assert(copia@[j] == duplicado);
                    assert(copia@[j].deep_view() == v@[i as int].deep_view());
                }
            }
            assert(copia.deep_view() =~= v.deep_view().subrange(0, i + 1));
        }
        i = i + 1;
    }
    proof {
        assert(copia.deep_view() =~= v.deep_view());
    }
    copia
}

/// Why `comentar_reflexao` refuses, if it does. The target reflection is
/// held to the same checks, in the same order, as in `erro_curtir`: a
/// removed reflection is reported as removed even when it is also private.
pub open spec fn erro_comentar(
    s: ContratoBiblia,
    t: IdTexto,
    autor: Endereco,
    conteudo: Seq<char>,
) -> Option<Erro> {
    if conteudo.len() > MAX_COMENTARIO_CHARS {
        Some(Erro::ConteudoMuitoLongo)
    } else if conteudo.len() == 0 {
        Some(Erro::ConteudoVazio)
    } else if !s.tem_reflexao(t, autor) {
        Some(Erro::ReflexaoNaoEncontrada)
    } else if s.status_de(t, autor) == StatusReflexao::Removida {
        Some(Erro::ReflexaoRemovida)
    } else if !s.reflexao_de(t, autor).publica {
        Some(Erro::ReflexaoNaoPublica)
    } else {
        None
    }
}

/// The comment a successful `comentar_reflexao` appends.
pub open spec fn comentario_novo(comentarista: Endereco, conteudo: Seq<char>, agora: u64)
    -> VistaComentario {
    VistaComentario { autor: comentarista, conteudo, timestamp: agora, curtidas: 0 }
}

/// After a successful `comentar_reflexao`: exactly the new comment is
/// appended at the end of the pair's log, and everything else keeps its
/// value.
pub open spec fn pos_comentar(
    s0: ContratoBiblia,
    s1: ContratoBiblia,
    comentarista: Endereco,
    t: IdTexto,
    autor: Endereco,
    conteudo: Seq<char>,
    agora: u64,
) -> bool {
    &&& s1.comentarios_de(t, autor) == s0.comentarios_de(t, autor).push(
        comentario_novo(comentarista, conteudo, agora),
    )
    &&& forall|t2: IdTexto, a2: Endereco|
        (t2, a2) != (t, autor) ==> #[trigger] s1.comentarios_de(t2, a2) == s0.comentarios_de(
            t2,
            a2,
        )
    &&& so_difere_comentarios(s0, s1)
}

/// Appends a comment to this author's public reflection. Refused, leaving
/// the state untouched, unless the content length is in range and the
/// reflection exists, is public and is active.
pub fn comentar_reflexao(
    s: &mut ContratoBiblia,
    comentarista: Endereco,
    id_texto: IdTexto,
    autor_reflexao: Endereco,
    conteudo: String,
    agora: u64,
) -> (r: Result<(), Erro>)
    requires
        old(s).bem_formado(),
    ensures
        final(s).bem_formado(),
        match r {
            Ok(()) => {
                &&& erro_comentar(*old(s), id_texto, autor_reflexao, conteudo@) is None
                &&& pos_comentar(
                    *old(s),
                    *final(s),
                    comentarista,
                    id_texto,
                    autor_reflexao,
                    conteudo@,
                    agora,
                )
            },
            Err(e) => {
                &&& erro_comentar(*old(s), id_texto, autor_reflexao, conteudo@) == Some(e)
                &&& *final(s) == *old(s)
            },
        },
{
    proof {
        lema_chaves_fieis();
    }
    let tamanho = conteudo.as_str().unicode_len();
    if tamanho > MAX_COMENTARIO_CHARS as usize {
        return Err(Erro::ConteudoMuitoLongo);
    }
    if tamanho == 0 {
        return Err(Erro::ConteudoVazio);
    }
    let chave = (id_texto, autor_reflexao);
    let i_reflexao = match indice_de(&s.reflexoes, &chave) {
        Some(i) => i,
        None => {
            return Err(Erro::ReflexaoNaoEncontrada);
        },
    };
    proof {
        lema_indice_da_chave(s.reflexoes@, chave, i_reflexao as int);
    }
    let estado = match indice_de(&s.status, &chave) {
        Some(j) => {
            proof {
                lema_indice_da_chave(s.status@, chave, j as int);
            }
            s.status[j].1
        },
        None => StatusReflexao::Ativa,
    };
    if let StatusReflexao::Removida = estado {
        return Err(Erro::ReflexaoRemovida);
    }
    if !s.reflexoes[i_reflexao].1.publica {
        return Err(Erro::ReflexaoNaoPublica);
    }
    let comentario = Comentario { autor: comentarista, conteudo, timestamp: agora, curtidas: 0 };
    let mut lista = match indice_de(&s.comentarios, &chave) {
        Some(j) => {
            proof {
                lema_indice_da_chave(s.comentarios@, chave, j as int);
            }
            duplicar_comentarios(&s.comentarios[j].1)
        },
        None => Vec::new(),
    };
    let ghost antes = old(s).comentarios_de(id_texto, autor_reflexao);
    proof {
        assert(lista.deep_view() =~= antes);
    }
    lista.push(comentario);
    proof {
        assert(lista.deep_view() =~= antes.push(
            comentario_novo(comentarista, conteudo@, agora),
        ));
    }
    definir(&mut s.comentarios, chave, lista);
    Ok(())
}

/// Why `remover_comentario` refuses, if it does.
pub open spec fn erro_remover(
    s: ContratoBiblia,
    usuario: Endereco,
    t: IdTexto,
    autor: Endereco,
    indice: u32,
) -> Option<Erro> {
    let lista = s.comentarios_de(t, autor);
    if indice >= lista.len() {
        Some(Erro::IndiceComentarioInvalido)
    } else if lista[indice as int].autor != usuario {
        Some(Erro::NaoAutorDoComentario)
    } else {
        None
    }
}

/// After a successful `remover_comentario`: exactly the comment at the
/// given position is gone, later ones move one position down, and
/// everything else keeps its value.
pub open spec fn pos_remover(
    s0: ContratoBiblia,
    s1: ContratoBiblia,
    t: IdTexto,
    autor: Endereco,
    indice: u32,
) -> bool {
    &&& s1.comentarios_de(t, autor) == s0.comentarios_de(t, autor).remove(indice as int)
    &&& forall|t2: IdTexto, a2: Endereco|
        (t2, a2) != (t, autor) ==> #[trigger] s1.comentarios_de(t2, a2) == s0.comentarios_de(
            t2,
            a2,
        )
    &&& so_difere_comentarios(s0, s1)
}

/// Removes the comment at a position, if the caller wrote it; every later
/// comment's position falls by one.
pub fn remover_comentario(
    s: &mut ContratoBiblia,
    usuario: Endereco,
    id_texto: IdTexto,
    autor_reflexao: Endereco,
    indice_comentario: u32,
) -> (r: Result<(), Erro>)
    requires
        old(s).bem_formado(),
    ensures
        final(s).bem_formado(),
        match r {
            Ok(()) => {
                &&& erro_remover(
                    *old(s),
                    usuario,
                    id_texto,
                    autor_reflexao,
                    indice_comentario,
                ) is None
                &&& pos_remover(
                    *old(s),
                    *final(s),
                    id_texto,
                    autor_reflexao,
                    indice_comentario,
                )
            },
            Err(e) => {
                &&& erro_remover(*old(s), usuario, id_texto, autor_reflexao, indice_comentario)
                    == Some(e)
                &&& *final(s) == *old(s)
            },
        },
{
    proof {
        lema_chaves_fieis();
    }
    let chave = (id_texto, autor_reflexao);
    let mut lista = match indice_de(&s.comentarios, &chave) {
        Some(j) => {
            proof {
                lema_indice_da_chave(s.comentarios@, chave, j as int);
            }
            duplicar_comentarios(&s.comentarios[j].1)
        },
        None => Vec::new(),
    };
    let ghost antes = old(s).comentarios_de(id_texto, autor_reflexao);
    proof {
        assert(lista.deep_view() =~= antes);
        assert(lista@.len() == antes.len());
    }
    if indice_comentario as usize >= lista.len() {
        return Err(Erro::IndiceComentarioInvalido);
    }
    let indice = indice_comentario as usize;
    if !(lista[indice].autor == usuario) {
        proof {
            assert(antes[indice_comentario as int].autor == lista@[indice as int]@.autor);
        }
        return Err(Erro::NaoAutorDoComentario);
    }
    proof {
        assert(antes[indice_comentario as int].autor == lista@[indice as int]@.autor);
    }
    lista.remove(indice);
    proof {
        assert(lista.deep_view() =~= antes.remove(indice_comentario as int));
    }
    definir(&mut s.comentarios, chave, lista);
    Ok(())
}

/// Hands out the full comment log of this author's reflection, oldest
/// first.
pub fn obter_comentarios(s: &ContratoBiblia, id_texto: IdTexto, autor_reflexao: Endereco) -> (r:
    Vec<Comentario>)
    requires
        s.bem_formado(),
    ensures
        r.deep_view() == s.comentarios_de(id_texto, autor_reflexao),
{
    proof {
        lema_chaves_fieis();
    }
    let chave = (id_texto, autor_reflexao);
    match indice_de(&s.comentarios, &chave) {
        Some(j) => {
            proof {
                lema_indice_da_chave(s.comentarios@, chave, j as int);
            }
            duplicar_comentarios(&s.comentarios[j].1)
        },
        None => {
            let vazio: Vec<Comentario> = Vec::new();
            proof {
                assert(vazio.deep_view() =~= s.comentarios_de(id_texto, autor_reflexao));
            }
            vazio
        },
    }
}

/// Sequence number `i` of the text's public index leads to a reflection
/// that a listing shows: present, active, still public.
pub open spec fn visivel(s: ContratoBiblia, t: IdTexto, i: u32) -> bool {
    &&& s.publicado(t, i)
    &&& s.status_de(t, s.autor_publicado(t, i)) == StatusReflexao::Ativa
    &&& s.tem_reflexao(t, s.autor_publicado(t, i))
    &&& s.reflexao_de(t, s.autor_publicado(t, i)).publica
}

/// The reflections a listing of sequence numbers `[de, ate)` shows, in
/// publish order: the visible ones, re-filtered at read time.
pub open spec fn listagem(s: ContratoBiblia, t: IdTexto, de: u32, ate: u32) -> Seq<VistaReflexao>
    decreases ate - de,
{
    if ate <= de {
        Seq::empty()
    } else {
        let anterior = listagem(s, t, de, (ate - 1) as u32);
        if visivel(s, t, (ate - 1) as u32) {
            anterior.push(s.reflexao_de(t, s.autor_publicado(t, (ate - 1) as u32)))
        } else {
            anterior
        }
    }
}

/// Where a listing stops: at `offset + limite`, or at the text's public
/// counter when that is smaller.
pub open spec fn fim_da_listagem(s: ContratoBiblia, t: IdTexto, limite: u32, offset: u32) -> u32 {
    if offset + limite > s.contador_publico(t) {
        s.contador_publico(t)
    } else {
        (offset + limite) as u32
    }
}

/// Lists the public reflections about a text, in publish order, `limite`
/// entries at most, starting at sequence number `offset`. Entries whose
/// reflection was since made private or removed are filtered out at read
/// time; an offset past the counter or a zero limit give an empty answer,
/// never an error.
pub fn listar_reflexoes_publicas(
    s: &ContratoBiblia,
    id_texto: IdTexto,
    limite: u32,
    offset: u32,
) -> (r: Vec<Reflexao>)
    requires
        s.bem_formado(),
    ensures
        r.deep_view() == listagem(*s, id_texto, offset, fim_da_listagem(*s, id_texto, limite,
            offset)),
        offset >= s.contador_publico(id_texto) ==> r@.len() == 0,
        limite == 0 ==> r@.len() == 0,
{
    proof {
        lema_chaves_fieis();
    }
    let contador: u32 = match indice_de(&s.contadores, &id_texto) {
        Some(i) => {
            proof {
                lema_indice_da_chave(s.contadores@, id_texto, i as int);
            }
            s.contadores[i].1
        },
        None => 0,
    };
    let fim: u32 = if offset as u64 + limite as u64 > contador as u64 {
        contador
    } else {
        offset + limite
    };
    let ghost alvo = fim_da_listagem(*s, id_texto, limite, offset);
    proof {
        assert(alvo == fim);
    }
    let mut r: Vec<Reflexao> = Vec::new();
    if fim <= offset {
        proof {
            assert(r.deep_view() =~= listagem(*s, id_texto, offset, fim));
        }
        return r;
    }
    let mut i: u32 = offset;
    proof {
        assert(r.deep_view() =~= listagem(*s, id_texto, offset, offset));
    }
    while i < fim
        invariant
            s.bem_formado(),
            offset <= i <= fim,
            r.deep_view() == listagem(*s, id_texto, offset, i),
            vstd::laws_eq::obeys_concrete_eq::<(IdTexto, u32)>(),
            vstd::laws_eq::obeys_concrete_eq::<(IdTexto, Endereco)>(),
        decreases fim - i,
    {
        let chave_indice = (id_texto, i);
        let ghost r_antes = r.deep_view();
        match indice_de(&s.indice_publico, &chave_indice) {
            Some(j) => {
                proof {
                    lema_indice_da_chave(s.indice_publico@, chave_indice, j as int);
                }
                let autor = s.indice_publico[j].1;
                let chave_r = (id_texto, autor);
                let estado = match indice_de(&s.status, &chave_r) {
                    Some(k) => {
                        proof {
                            lema_indice_da_chave(s.status@, chave_r, k as int);
                        }
                        s.status[k].1
                    },
                    None => StatusReflexao::Ativa,
                };
                if let StatusReflexao::Ativa = estado {
                    match indice_de(&s.reflexoes, &chave_r) {
                        Some(k) => {
                            proof {
                                lema_indice_da_chave(s.reflexoes@, chave_r, k as int);
                            }
                            if s.reflexoes[k].1.publica {
                                r.push(s.reflexoes[k].1.duplicar());
                            }
                        },
                        None => {},
                    }
                }
            },
            None => {},
        }
        proof {
            if visivel(*s, id_texto, i) {
                assert(r.deep_view() =~= r_antes.push(s.reflexao_de(id_texto, s.autor_publicado(
                    id_texto,
                    i,
                ))));
            } else {
                assert(r.deep_view() =~= r_antes);
            }
            assert(r.deep_view() =~= listagem(*s, id_texto, offset, (i + 1) as u32));
        }
        i = i + 1;
    }
    r
}

/// The two states agree everywhere but possibly the moderation statuses.
pub open spec fn so_difere_status(a: ContratoBiblia, b: ContratoBiblia) -> bool {
    &&& a.admin == b.admin
    &&& a.hashes == b.hashes
    &&& a.leituras == b.leituras
    &&& a.progresso == b.progresso
    &&& a.metas_livros == b.metas_livros
    &&& a.reflexoes == b.reflexoes
    &&& a.contadores == b.contadores
    &&& a.indice_publico == b.indice_publico
    &&& a.curtidas == b.curtidas
    &&& a.comentarios == b.comentarios
}

/// Why `moderar_reflexao` refuses, if it does: only the reflection's own
/// author or the configured administrator may move its status.
pub open spec fn erro_moderar(
    s: ContratoBiblia,
    chamador: Endereco,
    t: IdTexto,
    autor: Endereco,
) -> Option<Erro> {
    if !s.tem_reflexao(t, autor) {
        Some(Erro::ReflexaoNaoEncontrada)
    } else if !(chamador == autor || (s.inicializado() && chamador == s.admin_de())) {
        Some(Erro::AutorizacaoNegada)
    } else {
        None
    }
}

/// After a successful `moderar_reflexao`: the pair's status carries the
/// given value, every other status and everything else keep their values.
pub open spec fn pos_moderar(
    s0: ContratoBiblia,
    s1: ContratoBiblia,
    t: IdTexto,
    autor: Endereco,
    novo_status: StatusReflexao,
) -> bool {
    &&& s1.status_de(t, autor) == novo_status
    &&& forall|t2: IdTexto, a2: Endereco|
        (t2, a2) != (t, autor) ==> #[trigger] s1.status_de(t2, a2) == s0.status_de(t2, a2)
    &&& so_difere_status(s0, s1)
}

/// Moves a reflection between the active and the removed state without
/// deleting it: removed content disappears from reads and listings and can
/// be restored. Only the reflection's author or the administrator may do
/// this.
pub fn moderar_reflexao(
    s: &mut ContratoBiblia,
    chamador: Endereco,
    id_texto: IdTexto,
    autor_reflexao: Endereco,
    novo_status: StatusReflexao,
) -> (r: Result<(), Erro>)
    requires
        old(s).bem_formado(),
    ensures
        final(s).bem_formado(),
        match r {
            Ok(()) => {
                &&& erro_moderar(*old(s), chamador, id_texto, autor_reflexao) is None
                &&& pos_moderar(*old(s), *final(s), id_texto, autor_reflexao, novo_status)
            },
            Err(e) => {
                &&& erro_moderar(*old(s), chamador, id_texto, autor_reflexao) == Some(e)
                &&& *final(s) == *old(s)
            },
        },
{
    proof {
        lema_chaves_fieis();
    }
    let chave = (id_texto, autor_reflexao);
    match indice_de(&s.reflexoes, &chave) {
        Some(_) => {
            proof {
                assert(tem_chave(s.reflexoes@, chave));
            }
        },
        None => {
            return Err(Erro::ReflexaoNaoEncontrada);
        },
    }
    let autorizado = if chamador == autor_reflexao {
        true
    } else {
        match s.admin {
            Some(a) => chamador == a,
            None => false,
        }
    };
    if !autorizado {
        return Err(Erro::AutorizacaoNegada);
    }
    definir(&mut s.status, chave, novo_status);
    Ok(())
}

/// Once a principal has marked a registered text as read and has no
/// reflection about it yet, a reflection of legal length is owed success.
pub proof fn lema_adicionar_apos_ler(
    s: ContratoBiblia,
    leitor: Endereco,
    t: IdTexto,
    conteudo: Seq<char>,
)
    requires
        1 <= conteudo.len() <= MAX_REFLEXAO_CHARS,
        s.hash_registrado(t),
        s.leitura_marcada(leitor, t),
        !s.tem_reflexao(t, leitor),
    ensures
        erro_adicionar(s, leitor, t, conteudo) is None,
{
}

/// A freshly added reflection is exactly what `obter_reflexao` then
/// answers: the given content and visibility, a zero like counter.
pub proof fn lema_obter_apos_adicionar(
    s0: ContratoBiblia,
    s1: ContratoBiblia,
    leitor: Endereco,
    t: IdTexto,
    conteudo: Seq<char>,
    publica: bool,
    agora: u64,
)
    requires
        pos_adicionar(s0, s1, leitor, t, conteudo, publica, agora),
    ensures
        obter_espec(s1, leitor, t) == Some(reflexao_nova(leitor, t, conteudo, publica, agora)),
        obter_espec(s1, leitor, t).unwrap().conteudo == conteudo,
        obter_espec(s1, leitor, t).unwrap().publica == publica,
        obter_espec(s1, leitor, t).unwrap().curtidas == 0,
{
}

/// After one reflection by a pair succeeded, a second one by the same pair
/// is refused as a duplicate, whatever legal content it carries.
pub proof fn lema_reflexao_duplicada(
    s0: ContratoBiblia,
    s1: ContratoBiblia,
    leitor: Endereco,
    t: IdTexto,
    conteudo1: Seq<char>,
    publica: bool,
    agora: u64,
    conteudo2: Seq<char>,
)
    requires
        erro_adicionar(s0, leitor, t, conteudo1) is None,
        pos_adicionar(s0, s1, leitor, t, conteudo1, publica, agora),
        1 <= conteudo2.len() <= MAX_REFLEXAO_CHARS,
    ensures
        erro_adicionar(s1, leitor, t, conteudo2) == Some(Erro::ReflexaoDuplicada),
{
    assert(s1.hashes == s0.hashes);
    assert(s1.leituras == s0.leituras);
}

/// Without a prior reading record a reflection is refused for that very
/// reason, whatever legal content it carries.
pub proof fn lema_reflexao_sem_leitura(
    s: ContratoBiblia,
    leitor: Endereco,
    t: IdTexto,
    conteudo: Seq<char>,
)
    requires
        1 <= conteudo.len() <= MAX_REFLEXAO_CHARS,
        s.hash_registrado(t),
        !s.leitura_marcada(leitor, t),
    ensures
        erro_adicionar(s, leitor, t, conteudo) == Some(Erro::LeituraNaoConfirmada),
{
}

/// How many like records of this table concern this author's reflection on
/// this text, one per liker.
pub open spec fn conta_curtidas(
    s: Seq<((IdTexto, Endereco, Endereco), ())>,
    t: IdTexto,
    autor: Endereco,
) -> int
    decreases s.len(),
{
    if s.len() == 0 {
        0
    } else {
        conta_curtidas(s.drop_last(), t, autor) + if s.last().0.0 == t && s.last().0.1 == autor {
            1int
        } else {
            0int
        }
    }
}

/// A count of matching entries is never negative.
pub proof fn lema_conta_nao_negativa(
    s: Seq<((IdTexto, Endereco, Endereco), ())>,
    t: IdTexto,
    autor: Endereco,
)
    ensures
        conta_curtidas(s, t, autor) >= 0,
    decreases s.len(),
{
    if s.len() > 0 {
        lema_conta_nao_negativa(s.drop_last(), t, autor);
    }
}

/// Appending one entry raises the count of the pair it concerns by one and
/// no other.
pub proof fn lema_conta_apos_acrescentar(
    s: Seq<((IdTexto, Endereco, Endereco), ())>,
    par: ((IdTexto, Endereco, Endereco), ()),
    t: IdTexto,
    autor: Endereco,
)
    ensures
        conta_curtidas(s.push(par), t, autor) == conta_curtidas(s, t, autor) + if par.0.0 == t
            && par.0.1 == autor {
            1int
        } else {
            0int
        },
{
    assert(s.push(par).drop_last() =~= s);
    assert(s.push(par).last() == par);
}

/// Dropping one entry lowers the count of the pair it concerns by one and
/// no other.
pub proof fn lema_conta_apos_remover(
    s: Seq<((IdTexto, Endereco, Endereco), ())>,
    i: int,
    t: IdTexto,
    autor: Endereco,
)
    requires
        0 <= i < s.len(),
    ensures
        conta_curtidas(s.remove(i), t, autor) == conta_curtidas(s, t, autor) - if s[i].0.0 == t
            && s[i].0.1 == autor {
            1int
        } else {
            0int
        },
    decreases s.len(),
{
    if i == s.len() - 1 {
        assert(s.remove(i) =~= s.drop_last());
    } else {
        assert(s.remove(i).drop_last() =~= s.drop_last().remove(i));
        assert(s.remove(i).last() == s.last());
        lema_conta_apos_remover(s.drop_last(), i, t, autor);
    }
}

/// Every reflection's like counter equals the number of like records that
/// concern it, and a pair without a reflection has no like records. Every
/// state the ledger's operations can reach satisfies this.
pub open spec fn curtidas_coerentes(s: ContratoBiblia) -> bool {
    &&& forall|t: IdTexto, a: Endereco|
        s.tem_reflexao(t, a) ==> s.reflexao_de(t, a).curtidas == #[trigger] conta_curtidas(
            s.curtidas@,
            t,
            a,
        )
    &&& forall|t: IdTexto, a: Endereco|
        !s.tem_reflexao(t, a) ==> #[trigger] conta_curtidas(s.curtidas@, t, a) == 0
}

/// A ledger with nothing written is coherent.
pub proof fn lema_coerencia_inicial(s: ContratoBiblia)
    requires
        s.estado_inicial(),
    ensures
        curtidas_coerentes(s),
{
    assert forall|t: IdTexto, a: Endereco| #[trigger] conta_curtidas(s.curtidas@, t, a)
        == 0 by {
        assert(s.curtidas@.len() == 0);
    }
}

/// An operation that touches neither the reflections nor the like records
/// keeps coherence.
pub proof fn lema_coerencia_sem_mudanca(s0: ContratoBiblia, s1: ContratoBiblia)
    requires
        curtidas_coerentes(s0),
        s1.curtidas == s0.curtidas,
        s1.reflexoes == s0.reflexoes,
    ensures
        curtidas_coerentes(s1),
{
}

/// A successful `adicionar_reflexao` keeps coherence: the new reflection
/// starts with no likes and no like record concerned it before.
pub proof fn lema_coerencia_apos_adicionar(
    s0: ContratoBiblia,
    s1: ContratoBiblia,
    leitor: Endereco,
    t: IdTexto,
    conteudo: Seq<char>,
    publica: bool,
    agora: u64,
)
    requires
        curtidas_coerentes(s0),
        erro_adicionar(s0, leitor, t, conteudo) is None,
        pos_adicionar(s0, s1, leitor, t, conteudo, publica, agora),
    ensures
        curtidas_coerentes(s1),
{
    assert(s1.curtidas@ == s0.curtidas@);
    assert forall|t2: IdTexto, a2: Endereco| s1.tem_reflexao(t2, a2) implies s1.reflexao_de(
        t2,
        a2,
    ).curtidas == #[trigger] conta_curtidas(s1.curtidas@, t2, a2) by {
        if (t2, a2) == (t, leitor) {
            assert(!s0.tem_reflexao(t, leitor));
            assert(conta_curtidas(s0.curtidas@, t, leitor) == 0);
        } else {
            assert(s0.tem_reflexao(t2, a2));
        }
    }
    assert forall|t2: IdTexto, a2: Endereco| !s1.tem_reflexao(t2, a2)
        implies #[trigger] conta_curtidas(s1.curtidas@, t2, a2) == 0 by {
        assert((t2, a2) != (t, leitor));
        assert(!s0.tem_reflexao(t2, a2));
    }
}

/// A successful `curtir_reflexao` keeps coherence: the counter and the
/// record move together.
pub proof fn lema_coerencia_apos_curtir(
    s0: ContratoBiblia,
    s1: ContratoBiblia,
    curtidor: Endereco,
    t: IdTexto,
    autor: Endereco,
)
    requires
        curtidas_coerentes(s0),
        erro_curtir(s0, t, autor) is None,
        pos_curtir(s0, s1, curtidor, t, autor),
    ensures
        curtidas_coerentes(s1),
{
    let chave = (t, autor, curtidor);
    if s0.curtiu(t, autor, curtidor) {
        let i = indice_da_chave(s0.curtidas@, chave);
        assert(0 <= i < s0.curtidas@.len() && s0.curtidas@[i].0 == chave);
        assert forall|t2: IdTexto, a2: Endereco| #[trigger] conta_curtidas(s1.curtidas@, t2, a2)
            == conta_curtidas(s0.curtidas@, t2, a2) - (if t2 == t && a2 == autor {
            1int
        } else {
            0int
        }) by {
            lema_conta_apos_remover(s0.curtidas@, i, t2, a2);
        }
        lema_conta_nao_negativa(s1.curtidas@, t, autor);
    } else {
        assert forall|t2: IdTexto, a2: Endereco| #[trigger] conta_curtidas(s1.curtidas@, t2, a2)
            == conta_curtidas(s0.curtidas@, t2, a2) + (if t2 == t && a2 == autor {
            1int
        } else {
            0int
        }) by {
            lema_conta_apos_acrescentar(s0.curtidas@, (chave, ()), t2, a2);
        }
    }
    assert forall|t2: IdTexto, a2: Endereco| s1.tem_reflexao(t2, a2) implies s1.reflexao_de(
        t2,
        a2,
    ).curtidas == #[trigger] conta_curtidas(s1.curtidas@, t2, a2) by {
        if (t2, a2) == (t, autor) {
            if s0.curtiu(t, autor, curtidor) {
                lema_conta_nao_negativa(s1.curtidas@, t, autor);
            }
        } else {
            assert(s0.tem_reflexao(t2, a2));
            assert(s1.reflexao_de(t2, a2) == s0.reflexao_de(t2, a2));
        }
    }
    assert forall|t2: IdTexto, a2: Endereco| !s1.tem_reflexao(t2, a2)
        implies #[trigger] conta_curtidas(s1.curtidas@, t2, a2) == 0 by {
        assert((t2, a2) != (t, autor));
        assert(!s0.tem_reflexao(t2, a2));
    }
}

/// In a coherent state, a reflection someone likes has a counter of at
/// least one: the corner that makes the like toggle saturate cannot be
/// reached.
pub proof fn lema_coerencia_impede_curtida_orfa(
    s: ContratoBiblia,
    t: IdTexto,
    autor: Endereco,
    curtidor: Endereco,
)
    requires
        curtidas_coerentes(s),
        s.curtiu(t, autor, curtidor),
        s.tem_reflexao(t, autor),
    ensures
        s.reflexao_de(t, autor).curtidas >= 1,
{
    let i = indice_da_chave(s.curtidas@, (t, autor, curtidor));
    assert(0 <= i < s.curtidas@.len() && s.curtidas@[i].0 == (t, autor, curtidor));
    lema_conta_apos_remover(s.curtidas@, i, t, autor);
    lema_conta_nao_negativa(s.curtidas@.remove(i), t, autor);
}

/// Two like toggles by the same liker with nothing in between put both the
/// like record and the reflection back where they were, in every state the
/// ledger can reach.
pub proof fn lema_curtir_duas_vezes_coerente(
    s0: ContratoBiblia,
    s1: ContratoBiblia,
    s2: ContratoBiblia,
    curtidor: Endereco,
    t: IdTexto,
    autor: Endereco,
)
    requires
        curtidas_coerentes(s0),
        erro_curtir(s0, t, autor) is None,
        pos_curtir(s0, s1, curtidor, t, autor),
        pos_curtir(s1, s2, curtidor, t, autor),
    ensures
        s2.curtiu(t, autor, curtidor) == s0.curtiu(t, autor, curtidor),
        s2.reflexao_de(t, autor) == s0.reflexao_de(t, autor),
{
    if s0.curtiu(t, autor, curtidor) {
        lema_coerencia_impede_curtida_orfa(s0, t, autor, curtidor);
    }
    lema_curtir_duas_vezes(s0, s1, s2, curtidor, t, autor);
}

/// Two like toggles by the same liker with nothing in between put both the
/// like record and the reflection back where they were. The hypothesis on
/// the first state rules out the one corner where this fails: a recorded
/// like beside a counter already at zero, which the first step saturates.
pub proof fn lema_curtir_duas_vezes(
    s0: ContratoBiblia,
    s1: ContratoBiblia,
    s2: ContratoBiblia,
    curtidor: Endereco,
    t: IdTexto,
    autor: Endereco,
)
    requires
        pos_curtir(s0, s1, curtidor, t, autor),
        pos_curtir(s1, s2, curtidor, t, autor),
        s0.curtiu(t, autor, curtidor) ==> s0.reflexao_de(t, autor).curtidas >= 1,
    ensures
        s2.curtiu(t, autor, curtidor) == s0.curtiu(t, autor, curtidor),
        s2.reflexao_de(t, autor) == s0.reflexao_de(t, autor),
{
    assert(s2.reflexao_de(t, autor) =~= s0.reflexao_de(t, autor));
}

} // verus!
