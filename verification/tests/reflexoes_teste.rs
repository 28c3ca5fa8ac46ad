use contrato_biblia::{ContratoBiblia, Endereco, Erro, IdTexto};
use sha2::Digest;

const TEXTO: &str = "No princípio criou Deus os céus e a terra.";

fn gen_1_1() -> IdTexto {
    IdTexto { livro: 1, capitulo: 1, versiculo: 1 }
}

fn sha256_de(dados: &[u8]) -> Vec<u8> {
    sha2::Sha256::digest(dados).to_vec()
}

/// A ledger with an administrator and the hash of `TEXTO` registered under
/// Genesis 1:1.
fn preparado(admin: Endereco) -> ContratoBiblia {
    let mut c = ContratoBiblia::new();
    c.initialize(admin).unwrap();
    c.registrar_hash(admin, gen_1_1(), sha256_de(TEXTO.as_bytes())).unwrap();
    c
}

#[test]
fn test_funcionalidades_basicas() {
    let admin = Endereco { id: 1 };
    let leitor = Endereco { id: 2 };
    let id_texto = gen_1_1();
    let mut c = preparado(admin);

    c.marcar_lido(leitor, id_texto);

    let status_leitura = c.verificar_leitura(leitor, id_texto);
    assert_eq!(status_leitura, "Leitura confirmada!");

    let texto_valido = c.verificar_texto(id_texto, TEXTO.as_bytes());
    assert!(texto_valido);
}

#[test]
fn test_reflexoes_completo() {
    let admin = Endereco { id: 1 };
    let leitor = Endereco { id: 2 };
    let curtidor = Endereco { id: 3 };
    let id_texto = gen_1_1();
    let mut c = preparado(admin);
    c.marcar_lido(leitor, id_texto);

    let reflexao_conteudo = "Esta passagem me faz refletir sobre...";
    c.adicionar_reflexao(leitor, id_texto, reflexao_conteudo.to_owned(), true, 100).unwrap();

    let reflexao = c.obter_reflexao(leitor, id_texto);
    assert!(reflexao.is_some());
    assert_eq!(reflexao.unwrap().conteudo, reflexao_conteudo);

    c.curtir_reflexao(curtidor, id_texto, leitor).unwrap();
    let reflexao_curtida = c.obter_reflexao(leitor, id_texto).unwrap();
    assert_eq!(reflexao_curtida.curtidas, 1);

    let comentario = "Excelente reflexão!";
    c.comentar_reflexao(curtidor, id_texto, leitor, comentario.to_owned(), 101).unwrap();

    let comentarios = c.obter_comentarios(id_texto, leitor);
    assert_eq!(comentarios.len(), 1);
    assert_eq!(comentarios[0].conteudo, comentario);

    c.curtir_reflexao(curtidor, id_texto, leitor).unwrap();
    let reflexao_descurtida = c.obter_reflexao(leitor, id_texto).unwrap();
    assert_eq!(reflexao_descurtida.curtidas, 0);
}

#[test]
fn test_reflexoes_publicas() {
    let admin = Endereco { id: 1 };
    let leitor1 = Endereco { id: 2 };
    let leitor2 = Endereco { id: 3 };
    let id_texto = gen_1_1();
    let mut c = preparado(admin);
    c.marcar_lido(leitor1, id_texto);
    c.marcar_lido(leitor2, id_texto);

    c.adicionar_reflexao(leitor1, id_texto, "Primeira reflexão pública".to_owned(), true, 100)
        .unwrap();
    c.adicionar_reflexao(leitor2, id_texto, "Segunda reflexão pública".to_owned(), true, 101)
        .unwrap();

    let reflexoes_publicas = c.listar_reflexoes_publicas(id_texto, 10, 0);
    assert_eq!(reflexoes_publicas.len(), 2);
}

#[test]
fn test_reflexao_privada() {
    let admin = Endereco { id: 1 };
    let leitor = Endereco { id: 2 };
    let id_texto = gen_1_1();
    let mut c = preparado(admin);
    c.marcar_lido(leitor, id_texto);

    c.adicionar_reflexao(leitor, id_texto, "Reflexão privada".to_owned(), false, 100).unwrap();

    let reflexoes_publicas = c.listar_reflexoes_publicas(id_texto, 10, 0);
    assert_eq!(reflexoes_publicas.len(), 0);

    let reflexao = c.obter_reflexao(leitor, id_texto);
    assert!(reflexao.is_some());
    assert!(!reflexao.unwrap().publica);
}

#[test]
fn test_reflexao_sem_leitura() {
    let admin = Endereco { id: 1 };
    let leitor = Endereco { id: 2 };
    let id_texto = gen_1_1();
    let mut c = preparado(admin);

    let r = c.adicionar_reflexao(leitor, id_texto, "Reflexão sem leitura".to_owned(), true, 100);
    assert_eq!(r, Err(Erro::LeituraNaoConfirmada));
}

#[test]
fn test_reflexao_duplicada() {
    let admin = Endereco { id: 1 };
    let leitor = Endereco { id: 2 };
    let id_texto = gen_1_1();
    let mut c = preparado(admin);
    c.marcar_lido(leitor, id_texto);

    c.adicionar_reflexao(leitor, id_texto, "Primeira reflexão".to_owned(), true, 100).unwrap();

    let r = c.adicionar_reflexao(leitor, id_texto, "Segunda reflexão".to_owned(), true, 101);
    assert_eq!(r, Err(Erro::ReflexaoDuplicada));
}

#[test]
fn test_reflexao_muito_longa() {
    let admin = Endereco { id: 1 };
    let leitor = Endereco { id: 2 };
    let id_texto = gen_1_1();
    let mut c = preparado(admin);
    c.marcar_lido(leitor, id_texto);

    let reflexao_longa = "Lorem ipsum dolor sit amet, consectetur adipiscing elit. Sed do eiusmod tempor incididunt ut labore et dolore magna aliqua. Ut enim ad minim veniam, quis nostrud exercitation ullamco laboris nisi ut aliquip ex ea commodo consequat. Duis aute irure dolor in reprehenderit in voluptate velit esse cillum dolore eu fugiat nulla pariatur. Excepteur sint occaecat cupidatat non proident, sunt in culpa qui officia deserunt mollit anim id est laborum. Sed ut perspiciatis unde omnis iste natus error sit voluptatem accusantium doloremque laudantium, totam rem aperiam, eaque ipsa quae ab illo inventore veritatis et quasi architecto beatae vitae dicta sunt explicabo. Nemo enim ipsam voluptatem quia voluptas sit aspernatur aut odit aut fugit.";
    let r = c.adicionar_reflexao(leitor, id_texto, reflexao_longa.to_owned(), true, 100);
    assert_eq!(r, Err(Erro::ConteudoMuitoLongo));
}

#[test]
fn test_comentarios_funcionalidades() {
    let admin = Endereco { id: 1 };
    let leitor = Endereco { id: 2 };
    let comentarista = Endereco { id: 3 };
    let id_texto = gen_1_1();
    let mut c = preparado(admin);
    c.marcar_lido(leitor, id_texto);

    c.adicionar_reflexao(leitor, id_texto, "Reflexão sobre criação".to_owned(), true, 100)
        .unwrap();

    let comentario1 = "Primeiro comentário";
    let comentario2 = "Segundo comentário";

    c.comentar_reflexao(comentarista, id_texto, leitor, comentario1.to_owned(), 101).unwrap();
    c.comentar_reflexao(comentarista, id_texto, leitor, comentario2.to_owned(), 102).unwrap();

    let comentarios = c.obter_comentarios(id_texto, leitor);
    assert_eq!(comentarios.len(), 2);
    assert_eq!(comentarios[0].conteudo, comentario1);
    assert_eq!(comentarios[1].conteudo, comentario2);
}

#[test]
fn test_remover_comentario() {
    let admin = Endereco { id: 1 };
    let leitor = Endereco { id: 2 };
    let comentarista = Endereco { id: 3 };
    let id_texto = gen_1_1();
    let mut c = preparado(admin);
    c.marcar_lido(leitor, id_texto);

    c.adicionar_reflexao(leitor, id_texto, "Reflexão sobre criação".to_owned(), true, 100)
        .unwrap();

    c.comentar_reflexao(comentarista, id_texto, leitor, "Comentário para ser removido".to_owned(),
        101).unwrap();

    let comentarios_antes = c.obter_comentarios(id_texto, leitor);
    assert_eq!(comentarios_antes.len(), 1);

    c.remover_comentario(comentarista, id_texto, leitor, 0).unwrap();

    let comentarios_depois = c.obter_comentarios(id_texto, leitor);
    assert_eq!(comentarios_depois.len(), 0);
}
